//! What the models of cluster objects keep: every part that a decision is made on.

use vstd::prelude::*;

use crate::labels::Labels;
use crate::model;
use crate::model::{
    Container, Deployment, DeploymentSpec, EnvVar, Pod, PodCondition, PodSpec, PodStatus,
};

verus! {

/// The model of a variable has its name, its value and its source.
pub proof fn law_variable_is_kept<S>(name: String, value: String, source: Option<S>)
    ensures
        (EnvVar { name, value: Some(value), value_from: source })@ == (model::EnvVarView {
            name: name@,
            value: Some(value@),
            value_from: source,
        }),
        (EnvVar { name, value: None, value_from: source })@ == (model::EnvVarView {
            name: name@,
            value: None,
            value_from: source,
        }),
{
}

/// The model of a container has its name and the model of each of its variables, in
/// their order.
pub proof fn law_container_is_kept<S>(name: String, vars: Vec<EnvVar<S>>)
    ensures
        (Container { name, env: Some(vars) })@.name == name@,
        (Container { name, env: Some(vars) })@.env matches Some(list) && list.len() == vars@.len()
            && forall|i: int| 0 <= i < list.len() ==> #[trigger] list[i] == vars@[i]@,
        (Container { name, env: None::<Vec<EnvVar<S>>> })@ == (model::ContainerView::<S> {
            name: name@,
            env: None,
        }),
        model::vars(vars@).len() == vars@.len(),
        forall|i: int|
            0 <= i < vars@.len() ==> #[trigger] model::vars(vars@)[i] == vars@[i]@,
{
}

/// The containers of a Deployment are those of its pod specification, in their order,
/// and its labels those of its selector. Without a pod specification there are none.
pub proof fn law_deployment_is_kept<S>(
    match_labels: Option<Labels>,
    list: Vec<Container<S>>,
)
    ensures
        ({
            let full = Deployment {
                spec: Some(
                    DeploymentSpec { match_labels, pod_spec: Some(PodSpec { containers: list }) },
                ),
            };
            &&& full.match_labels() == match_labels
            &&& full.containers() matches Some(models) && models.len() == list@.len()
                && forall|i: int| 0 <= i < models.len() ==> #[trigger] models[i] == list@[i]@
        }),
        ({
            let bare = Deployment::<S> {
                spec: Some(DeploymentSpec { match_labels, pod_spec: None }),
            };
            bare.match_labels() == match_labels && bare.containers() is None
        }),
        ({
            let none = Deployment::<S> { spec: None };
            none.match_labels() is None && none.containers() is None
        }),
        model::containers(list@).len() == list@.len(),
        forall|i: int|
            0 <= i < list@.len() ==> #[trigger] model::containers(list@)[i] == list@[i]@,
{
}

/// The model of a pod has its name, its phase and each of its conditions, in their order.
pub proof fn law_pod_is_kept(
    name: Option<String>,
    phase: Option<String>,
    list: Vec<PodCondition>,
)
    ensures
        ({
            let status = PodStatus { phase, conditions: Some(list) };
            let pod = Pod { name, status: Some(status) };
            &&& pod@.name is Some <==> name is Some
            &&& name is Some ==> pod@.name == Some(name->0@)
            &&& pod@.status matches Some(kept) && (kept.phase is Some <==> phase is Some) && (phase
                is Some ==> kept.phase == Some(phase->0@)) && (kept.conditions matches Some(models)
                && models.len() == list@.len() && forall|i: int|
                0 <= i < models.len() ==> (#[trigger] models[i]).type_ == list@[i].type_@
                    && models[i].status == list@[i].status@)
        }),
        ({
            let pod = Pod { name, status: Some(PodStatus { phase, conditions: None }) };
            pod@.status matches Some(kept) && kept.conditions is None && (kept.phase is Some
                <==> phase is Some) && (phase is Some ==> kept.phase == Some(phase->0@))
        }),
        (Pod { name, status: None })@.status is None,
{
}

/// The models of a list of pods or of pairs are those of its items, in their order.
pub proof fn law_lists_are_kept(pods: Seq<Pod>, pairs: Seq<(String, String)>)
    ensures
        model::pods(pods).len() == pods.len(),
        forall|i: int| 0 <= i < pods.len() ==> #[trigger] model::pods(pods)[i] == pods[i]@,
        model::pairs(pairs).len() == pairs.len(),
        forall|i: int|
            0 <= i < pairs.len() ==> #[trigger] model::pairs(pairs)[i] == (
                pairs[i].0@,
                pairs[i].1@,
            ),
{
}

} // verus!

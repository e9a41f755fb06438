//! The parts of cluster objects that decisions are made on.
//!
//! A variable's source (a reference to a secret, a field and so on) is only ever
//! kept or dropped, so its type `S` is left open.

use vstd::prelude::*;

use crate::labels::Labels;
use crate::text;

verus! {

/// A variable in a container's environment.
#[derive(Debug, PartialEq, Eq)]
pub struct EnvVar<S> {
    pub name: String,
    pub value: Option<String>,
    pub value_from: Option<S>,
}

/// A container of a pod.
#[derive(Debug, PartialEq, Eq)]
pub struct Container<S> {
    pub name: String,
    pub env: Option<Vec<EnvVar<S>>>,
}

/// What a pod is made of.
pub struct PodSpec<S> {
    pub containers: Vec<Container<S>>,
}

/// What a Deployment asks for: the labels of its pods and the pods themselves.
pub struct DeploymentSpec<S> {
    pub match_labels: Option<Labels>,
    pub pod_spec: Option<PodSpec<S>>,
}

/// A Deployment.
pub struct Deployment<S> {
    pub spec: Option<DeploymentSpec<S>>,
}

/// A condition that a pod reports.
#[derive(Debug, PartialEq, Eq)]
pub struct PodCondition {
    pub type_: String,
    pub status: String,
}

/// The state that a pod reports.
#[derive(Debug, PartialEq, Eq)]
pub struct PodStatus {
    pub phase: Option<String>,
    pub conditions: Option<Vec<PodCondition>>,
}

/// A pod.
#[derive(Debug, PartialEq, Eq)]
pub struct Pod {
    pub name: Option<String>,
    pub status: Option<PodStatus>,
}

/// Model of an [`EnvVar`].
#[verifier::ext_equal]
pub struct EnvVarView<S> {
    pub name: Seq<char>,
    pub value: Option<Seq<char>>,
    pub value_from: Option<S>,
}

/// Model of a [`Container`].
#[verifier::ext_equal]
pub struct ContainerView<S> {
    pub name: Seq<char>,
    pub env: Option<Seq<EnvVarView<S>>>,
}

/// Model of a [`PodCondition`].
pub struct PodConditionView {
    pub type_: Seq<char>,
    pub status: Seq<char>,
}

/// Model of a [`PodStatus`].
pub struct PodStatusView {
    pub phase: Option<Seq<char>>,
    pub conditions: Option<Seq<PodConditionView>>,
}

/// Model of a [`Pod`].
pub struct PodView {
    pub name: Option<Seq<char>>,
    pub status: Option<PodStatusView>,
}

impl<S> View for EnvVar<S> {
    type V = EnvVarView<S>;

    open spec fn view(&self) -> EnvVarView<S> {
        EnvVarView {
            name: self.name@,
            value: text::opt_text(self.value),
            value_from: self.value_from,
        }
    }
}

/// The models of a list of variables.
pub open spec fn vars<S>(list: Seq<EnvVar<S>>) -> Seq<EnvVarView<S>> {
    Seq::new(list.len(), |i: int| list[i]@)
}

impl<S> View for Container<S> {
    type V = ContainerView<S>;

    open spec fn view(&self) -> ContainerView<S> {
        ContainerView {
            name: self.name@,
            env: match self.env {
                Some(list) => Some(vars(list@)),
                None => None,
            },
        }
    }
}

/// The models of a list of containers.
pub open spec fn containers<S>(list: Seq<Container<S>>) -> Seq<ContainerView<S>> {
    Seq::new(list.len(), |i: int| list[i]@)
}

impl<S> Deployment<S> {
    /// The containers of the pods, where the Deployment specifies pods.
    pub open spec fn containers(self) -> Option<Seq<ContainerView<S>>> {
        match self.spec {
            Some(spec) => match spec.pod_spec {
                Some(pod) => Some(containers(pod.containers@)),
                None => None,
            },
            None => None,
        }
    }

    /// The labels that select the pods.
    pub open spec fn match_labels(self) -> Option<Labels> {
        match self.spec {
            Some(spec) => spec.match_labels,
            None => None,
        }
    }
}

impl View for PodCondition {
    type V = PodConditionView;

    open spec fn view(&self) -> PodConditionView {
        PodConditionView { type_: self.type_@, status: self.status@ }
    }
}

/// The models of a list of conditions.
pub open spec fn conditions(list: Seq<PodCondition>) -> Seq<PodConditionView> {
    Seq::new(list.len(), |i: int| list[i]@)
}

impl View for PodStatus {
    type V = PodStatusView;

    open spec fn view(&self) -> PodStatusView {
        PodStatusView {
            phase: text::opt_text(self.phase),
            conditions: match self.conditions {
                Some(list) => Some(conditions(list@)),
                None => None,
            },
        }
    }
}

impl View for Pod {
    type V = PodView;

    open spec fn view(&self) -> PodView {
        PodView {
            name: text::opt_text(self.name),
            status: match self.status {
                Some(status) => Some(status@),
                None => None,
            },
        }
    }
}

/// The models of a list of pods.
pub open spec fn pods(list: Seq<Pod>) -> Seq<PodView> {
    Seq::new(list.len(), |i: int| list[i]@)
}

/// The models of a list of pairs.
pub open spec fn pairs(list: Seq<(String, String)>) -> Seq<(Seq<char>, Seq<char>)> {
    Seq::new(list.len(), |i: int| (list[i].0@, list[i].1@))
}

} // verus!

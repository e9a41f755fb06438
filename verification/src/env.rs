//! The variables that tell the operator which images to use.

use vstd::prelude::*;

use crate::error::{Failure, OperatorError};
use crate::model;
use crate::model::{Container, Deployment, EnvVar};

verus! {

/// The container of the operator's Deployment that holds the variables.
pub const LIFECYCLE_CONTAINER: &'static str = "openshift-pipelines-operator-lifecycle";

/// The value that the first of `mappings` for `key` gives it.
pub open spec fn mapped(mappings: Seq<(Seq<char>, Seq<char>)>, key: Seq<char>) -> Option<Seq<char>>
    decreases mappings.len(),
{
    if mappings.len() == 0 {
        None
    } else if mappings[0].0 == key {
        Some(mappings[0].1)
    } else {
        mapped(mappings.skip(1), key)
    }
}

/// A variable is called `key`.
pub open spec fn has_var<S>(vars: Seq<model::EnvVarView<S>>, key: Seq<char>) -> bool {
    exists|i: int| 0 <= i < vars.len() && (#[trigger] vars[i]).name == key
}

/// `var` with the value that `mappings` give it, if they do. A mapped variable
/// loses its source.
pub open spec fn updated<S>(
    var: model::EnvVarView<S>,
    mappings: Seq<(Seq<char>, Seq<char>)>,
) -> model::EnvVarView<S> {
    match mapped(mappings, var.name) {
        Some(value) => model::EnvVarView { name: var.name, value: Some(value), value_from: None },
        None => var,
    }
}

/// A variable that only has a value.
pub open spec fn plain<S>(pair: (Seq<char>, Seq<char>)) -> model::EnvVarView<S> {
    model::EnvVarView { name: pair.0, value: Some(pair.1), value_from: None }
}

/// Those of `mappings` whose key is the name of none of `vars`.
pub open spec fn unmatched<S>(
    vars: Seq<model::EnvVarView<S>>,
    mappings: Seq<(Seq<char>, Seq<char>)>,
) -> Seq<(Seq<char>, Seq<char>)> {
    mappings.filter(|pair: (Seq<char>, Seq<char>)| !has_var(vars, pair.0))
}

/// `vars` with `mappings` merged into them: each variable in its place, updated
/// where it is mapped, and then one variable for each mapping that matched none.
pub open spec fn merged<S>(
    vars: Seq<model::EnvVarView<S>>,
    mappings: Seq<(Seq<char>, Seq<char>)>,
) -> Seq<model::EnvVarView<S>> {
    vars.map_values(|var: model::EnvVarView<S>| updated(var, mappings)) + unmatched(
        vars,
        mappings,
    ).map_values(|pair: (Seq<char>, Seq<char>)| plain::<S>(pair))
}

/// `at` is the place of the first lifecycle container.
pub open spec fn is_lifecycle<S>(list: Seq<model::ContainerView<S>>, at: int) -> bool {
    &&& 0 <= at < list.len()
    &&& list[at].name == LIFECYCLE_CONTAINER@
    &&& forall|k: int| 0 <= k < at ==> (#[trigger] list[k]).name != LIFECYCLE_CONTAINER@
}

/// The place of the first lifecycle container, if there is one.
pub open spec fn lifecycle_place<S>(list: Seq<model::ContainerView<S>>) -> Option<int> {
    if exists|at: int| is_lifecycle(list, at) {
        Some(choose|at: int| is_lifecycle(list, at))
    } else {
        None
    }
}

/// The variables of a container: none where it has no list.
pub open spec fn vars_of<S>(container: model::ContainerView<S>) -> Seq<model::EnvVarView<S>> {
    match container.env {
        Some(vars) => vars,
        None => Seq::empty(),
    }
}

/// `container` with `mappings` merged into its variables.
pub open spec fn with_mappings<S>(
    container: model::ContainerView<S>,
    mappings: Seq<(Seq<char>, Seq<char>)>,
) -> model::ContainerView<S> {
    model::ContainerView {
        name: container.name,
        env: Some(merged(vars_of(container), mappings)),
    }
}

/// `list` with `mappings` merged into the lifecycle container; nothing where there
/// is no such container.
pub open spec fn patched<S>(
    list: Seq<model::ContainerView<S>>,
    mappings: Seq<(Seq<char>, Seq<char>)>,
) -> Option<Seq<model::ContainerView<S>>> {
    match lifecycle_place(list) {
        Some(at) => Some(list.update(at, with_mappings(list[at], mappings))),
        None => None,
    }
}

/// The value of the first of `vars` that is called `key`; nothing where none is.
pub open spec fn value_in<S>(vars: Seq<model::EnvVarView<S>>, key: Seq<char>) -> Option<
    Option<Seq<char>>,
>
    decreases vars.len(),
{
    if vars.len() == 0 {
        None
    } else if vars[0].name == key {
        Some(vars[0].value)
    } else {
        value_in(vars.skip(1), key)
    }
}

/// `vars` give the key of `pair` its value.
pub open spec fn gives<S>(vars: Seq<model::EnvVarView<S>>, pair: (Seq<char>, Seq<char>)) -> bool {
    value_in(vars, pair.0) == Some(Some(pair.1))
}

/// The lifecycle container gives every key of `mappings` its value.
pub open spec fn env_matches<S>(
    list: Option<Seq<model::ContainerView<S>>>,
    mappings: Seq<(Seq<char>, Seq<char>)>,
) -> bool {
    match list {
        Some(list) => match lifecycle_place(list) {
            Some(at) => forall|j: int|
                0 <= j < mappings.len() ==> gives(vars_of(list[at]), #[trigger] mappings[j]),
            None => false,
        },
        None => false,
    }
}

/// What the first mapping that does not hold looks like in the Deployment.
#[derive(Debug, PartialEq, Eq)]
pub enum EnvProblem {
    /// No container is the lifecycle container.
    NoLifecycleContainer,
    /// No variable is called `key`.
    Missing { key: String },
    /// The variable `key` does not have the value `expected`.
    Mismatch { key: String, expected: String, actual: Option<String> },
}

/// `problem` is what stands between `list` and `mappings`.
pub open spec fn is_problem<S>(
    problem: EnvProblem,
    list: Option<Seq<model::ContainerView<S>>>,
    mappings: Seq<(Seq<char>, Seq<char>)>,
) -> bool {
    let place = match list {
        Some(list) => lifecycle_place(list),
        None => None,
    };
    match place {
        None => problem is NoLifecycleContainer,
        Some(at) => is_env_problem(problem, vars_of(list->0[at]), mappings),
    }
}

/// `problem` tells how the first of `mappings` that `vars` do not give fails.
pub open spec fn is_env_problem<S>(
    problem: EnvProblem,
    vars: Seq<model::EnvVarView<S>>,
    mappings: Seq<(Seq<char>, Seq<char>)>,
) -> bool {
    exists|j: int| #[trigger] is_first_problem(problem, vars, mappings, j)
}

/// `problem` tells how the mapping at `j`, the first that does not hold, fails.
pub open spec fn is_first_problem<S>(
    problem: EnvProblem,
    vars: Seq<model::EnvVarView<S>>,
    mappings: Seq<(Seq<char>, Seq<char>)>,
    j: int,
) -> bool {
    &&& 0 <= j < mappings.len()
    &&& forall|k: int| 0 <= k < j ==> gives(vars, #[trigger] mappings[k])
    &&& match problem {
        EnvProblem::NoLifecycleContainer => false,
        EnvProblem::Missing { key } => {
            &&& key@ == mappings[j].0
            &&& value_in(vars, mappings[j].0) is None
        },
        EnvProblem::Mismatch { key, expected, actual } => {
            &&& key@ == mappings[j].0
            &&& expected@ == mappings[j].1
            &&& value_in(vars, mappings[j].0) == Some(crate::text::opt_text(actual))
            &&& !gives(vars, mappings[j])
        },
    }
}

/// The value that the first of `mappings` for `key` gives it.
fn find_mapping<'a>(mappings: &'a [(String, String)], key: &String) -> (value: Option<&'a String>)
    ensures
        match value {
            Some(v) => mapped(model::pairs(mappings@), key@) == Some(v@),
            None => mapped(model::pairs(mappings@), key@) is None,
        },
{
    let ghost all = model::pairs(mappings@);
    assert(all.skip(0) =~= all);
    let mut i: usize = 0;
    while i < mappings.len()
        invariant
            i <= mappings.len(),
            all == model::pairs(mappings@),
            mapped(all, key@) == mapped(all.skip(i as int), key@),
        decreases mappings.len() - i,
    {
        assert(all.skip(i as int)[0] == all[i as int]);
        if mappings[i].0 == *key {
            return Some(&mappings[i].1);
        }
        assert(all.skip(i as int).skip(1) =~= all.skip(i + 1));
        i = i + 1;
    }
    None
}

/// The place of the first variable called `key`, among the first `count` of `vars`.
fn find_var<S>(vars: &Vec<EnvVar<S>>, count: usize, key: &String) -> (place: Option<usize>)
    requires
        count <= vars@.len(),
    ensures
        match place {
            Some(at) => {
                &&& at < count
                &&& vars@[at as int].name@ == key@
                &&& !has_var(model::vars(vars@).take(at as int), key@)
                &&& has_var(model::vars(vars@).take(count as int), key@)
            },
            None => !has_var(model::vars(vars@).take(count as int), key@),
        },
{
    let mut i: usize = 0;
    while i < count
        invariant
            i <= count <= vars@.len(),
            forall|k: int| 0 <= k < i ==> (#[trigger] vars@[k]).name@ != key@,
        decreases count - i,
    {
        if vars[i].name == *key {
            assert(model::vars(vars@).take(count as int)[i as int].name == key@);
            return Some(i);
        }
        i = i + 1;
    }
    None
}

/// Merge `mappings` into the variables `vars`.
pub fn merge_env<S>(vars: Vec<EnvVar<S>>, mappings: &[(String, String)]) -> (all: Vec<EnvVar<S>>)
    ensures
        model::vars(all@) == merged(model::vars(vars@), model::pairs(mappings@)),
{
    let ghost was = model::vars(vars@);
    let ghost map = model::pairs(mappings@);
    let mut all: Vec<EnvVar<S>> = vars;
    let count: usize = all.len();
    let mut i: usize = 0;
    while i < count
        invariant
            i <= count,
            count == was.len(),
            all@.len() == count,
            map == model::pairs(mappings@),
            forall|k: int| 0 <= k < i ==> (#[trigger] all@[k])@ == updated(was[k], map),
            forall|k: int| i <= k < count ==> (#[trigger] all@[k])@ == was[k],
        decreases count - i,
    {
        assert(all@[i as int]@ == was[i as int]);
        match find_mapping(mappings, &all[i].name) {
            Some(value) => {
                let name: String = all[i].name.clone();
                all.set(i, EnvVar { name: name, value: Some(value.clone()), value_from: None });
            },
            None => {},
        }
        i = i + 1;
    }
    let ghost first = was.map_values(|var: model::EnvVarView<S>| updated(var, map));
    assert(model::vars(all@) =~= first);
    assert(map.take(0) =~= Seq::empty());
    assert(unmatched(was, map.take(0)) =~= Seq::empty()) by {
        reveal(Seq::filter);
    }
    let mut j: usize = 0;
    while j < mappings.len()
        invariant
            j <= mappings.len(),
            count == was.len(),
            count <= all@.len(),
            first == was.map_values(|var: model::EnvVarView<S>| updated(var, map)),
            map == model::pairs(mappings@),
            model::vars(all@) =~= first + unmatched(was, map.take(j as int)).map_values(
                |pair: (Seq<char>, Seq<char>)| plain::<S>(pair),
            ),
        decreases mappings.len() - j,
    {
        let ghost pair = map[j as int];
        let ghost list = model::vars(all@);
        proof {
            lemma_unmatched_next(was, map, j as int);
            lemma_same_names(was, model::vars(all@).take(count as int), pair.0);
        }
        if find_var(&all, count, &mappings[j].0).is_none() {
            all.push(
                EnvVar {
                    name: mappings[j].0.clone(),
                    value: Some(mappings[j].1.clone()),
                    value_from: None,
                },
            );
            assert(model::vars(all@) =~= list.push(plain::<S>(pair)));
        }
        j = j + 1;
    }
    assert(map.take(j as int) =~= map);
    all
}

/// One more mapping among the unmatched ones.
proof fn lemma_unmatched_next<S>(
    vars: Seq<model::EnvVarView<S>>,
    mappings: Seq<(Seq<char>, Seq<char>)>,
    j: int,
)
    requires
        0 <= j < mappings.len(),
    ensures
        unmatched(vars, mappings.take(j + 1)) == if has_var(vars, mappings[j].0) {
            unmatched(vars, mappings.take(j))
        } else {
            unmatched(vars, mappings.take(j)).push(mappings[j])
        },
{
    reveal(Seq::filter);
    assert(mappings.take(j + 1).drop_last() =~= mappings.take(j));
}

/// Lists with the same names have the same variables by name.
proof fn lemma_same_names<S>(
    a: Seq<model::EnvVarView<S>>,
    b: Seq<model::EnvVarView<S>>,
    key: Seq<char>,
)
    requires
        a.len() == b.len(),
        forall|i: int| 0 <= i < a.len() ==> (#[trigger] a[i]).name == b[i].name,
    ensures
        has_var(a, key) == has_var(b, key),
{
    if has_var(a, key) {
        let i = choose|i: int| 0 <= i < a.len() && (#[trigger] a[i]).name == key;
        assert(b[i].name == key);
    }
    if has_var(b, key) {
        let i = choose|i: int| 0 <= i < b.len() && (#[trigger] b[i]).name == key;
        assert(a[i].name == key);
    }
}

/// There is one first lifecycle container.
pub(crate) proof fn lemma_lifecycle_place<S>(list: Seq<model::ContainerView<S>>, at: int)
    requires
        is_lifecycle(list, at),
    ensures
        lifecycle_place(list) == Some(at),
{
    let other = choose|i: int| is_lifecycle(list, i);
    if other < at {
        assert(list[other].name != LIFECYCLE_CONTAINER@);
    }
    if at < other {
        assert(list[at].name != LIFECYCLE_CONTAINER@);
    }
}

/// The place of the first lifecycle container.
fn find_lifecycle<S>(list: &Vec<Container<S>>) -> (place: Option<usize>)
    ensures
        match place {
            Some(at) => lifecycle_place(model::containers(list@)) == Some(at as int) && at
                < list@.len(),
            None => lifecycle_place(model::containers(list@)) is None,
        },
{
    let name: String = LIFECYCLE_CONTAINER.to_owned();
    let ghost all = model::containers(list@);
    let mut i: usize = 0;
    while i < list.len()
        invariant
            i <= list.len(),
            name@ == LIFECYCLE_CONTAINER@,
            all == model::containers(list@),
            forall|k: int| 0 <= k < i ==> (#[trigger] all[k]).name != LIFECYCLE_CONTAINER@,
        decreases list.len() - i,
    {
        assert(all[i as int].name == list@[i as int].name@);
        if list[i].name == name {
            proof {
                lemma_lifecycle_place(all, i as int);
            }
            return Some(i);
        }
        i = i + 1;
    }
    None
}

/// Merge the mappings into the lifecycle container of a Deployment.
///
/// A variable that a mapping names takes its value and loses its source, a mapping
/// that names no variable becomes one, and all else stays. A Deployment without
/// that container is left as it is.
pub fn patch_env<S>(
    deployment: &mut Deployment<S>,
    mappings: &[(String, String)],
) -> (result: Result<(), OperatorError>)
    ensures
        match old(deployment).containers() {
            None => {
                &&& result matches Err(error) && error@ is NoContainers
                &&& *final(deployment) == *old(deployment)
            },
            Some(list) => match patched(list, model::pairs(mappings@)) {
                None => {
                    &&& result matches Err(error) && error@ is NoLifecycleContainer
                    &&& *final(deployment) == *old(deployment)
                },
                Some(after) => {
                    &&& result is Ok
                    &&& final(deployment).containers() == Some(after)
                    &&& final(deployment).match_labels() == old(deployment).match_labels()
                },
            },
        },
{
    match &mut deployment.spec {
        None => Err(Failure::NoContainers),
        Some(spec) => match &mut spec.pod_spec {
            None => Err(Failure::NoContainers),
            Some(pod) => match find_lifecycle(&pod.containers) {
                None => Err(Failure::NoLifecycleContainer),
                Some(at) => {
                    let ghost was = model::containers(pod.containers@);
                    let mut vars: Option<Vec<EnvVar<S>>> = None;
                    std::mem::swap(&mut vars, &mut pod.containers[at].env);
                    let vars: Vec<EnvVar<S>> = match vars {
                        Some(list) => list,
                        None => Vec::new(),
                    };
                    assert(model::vars(vars@) =~= vars_of(was[at as int]));
                    pod.containers[at].env = Some(merge_env(vars, mappings));
                    assert(model::containers(pod.containers@) =~= was.update(
                        at as int,
                        with_mappings(was[at as int], model::pairs(mappings@)),
                    ));
                    Ok(())
                },
            },
        },
    }
}

/// Patch the operator Deployment's variables: the Deployment to replace it by, by the
/// reply to the request that reads it.
///
/// The container named "openshift-pipelines-operator-lifecycle" gets the mappings. The
/// reply is nothing where the request failed.
pub fn patch_operator_deployment_env<S>(
    reply: Option<Deployment<S>>,
    namespace: &str,
    deployment_name: &str,
    mappings: &[(String, String)],
) -> (result: Result<Deployment<S>, OperatorError>)
    ensures
        match reply {
            None => result matches Err(error) && error@ == (Failure::GetDeployment {
                namespace: namespace@,
                name: deployment_name@,
            }),
            Some(deployment) => match deployment.containers() {
                None => result matches Err(error) && error@ is NoContainers,
                Some(list) => match patched(list, model::pairs(mappings@)) {
                    None => result matches Err(error) && error@ is NoLifecycleContainer,
                    Some(after) => result matches Ok(new) && new.containers() == Some(after)
                        && new.match_labels() == deployment.match_labels(),
                },
            },
        },
{
    match reply {
        None => Err(
            Failure::GetDeployment {
                namespace: namespace.to_owned(),
                name: deployment_name.to_owned(),
            },
        ),
        Some(deployment) => {
            let mut new: Deployment<S> = deployment;
            match patch_env(&mut new, mappings) {
                Ok(()) => Ok(new),
                Err(error) => Err(error),
            }
        },
    }
}

/// How the patch ended, by whether the Deployment could be replaced by the patched one.
pub fn patch_result(replaced: bool, namespace: &str, deployment_name: &str) -> (result: Result<
    (),
    OperatorError,
>)
    ensures
        replaced ==> result is Ok,
        !replaced ==> (result matches Err(error) && error@ == (Failure::UpdateDeployment {
            namespace: namespace@,
            name: deployment_name@,
        })),
{
    if replaced {
        Ok(())
    } else {
        Err(
            Failure::UpdateDeployment {
                namespace: namespace.to_owned(),
                name: deployment_name.to_owned(),
            },
        )
    }
}

/// The value of the first variable called `key` is the one at its first place.
proof fn lemma_value_at<S>(vars: Seq<model::EnvVarView<S>>, at: int)
    requires
        0 <= at < vars.len(),
        !has_var(vars.take(at), vars[at].name),
    ensures
        value_in(vars, vars[at].name) == Some(vars[at].value),
    decreases at,
{
    if at > 0 {
        let tail = vars.skip(1);
        assert(vars.take(at)[0].name != vars[at].name);
        assert(tail[at - 1] == vars[at]);
        assert forall|i: int| 0 <= i < tail.take(at - 1).len() implies (#[trigger] tail.take(
            at - 1,
        )[i]).name != vars[at].name by {
            assert(vars.take(at)[i + 1] == tail.take(at - 1)[i]);
        }
        lemma_value_at(tail, at - 1);
    }
}

/// Where no variable is called `key` it has no value.
proof fn lemma_no_value<S>(vars: Seq<model::EnvVarView<S>>, key: Seq<char>)
    ensures
        value_in(vars, key) is None <==> !has_var(vars, key),
    decreases vars.len(),
{
    if vars.len() > 0 {
        let tail = vars.skip(1);
        lemma_no_value(tail, key);
        if has_var(tail, key) {
            let i = choose|i: int| 0 <= i < tail.len() && (#[trigger] tail[i]).name == key;
            assert(vars[i + 1].name == key);
        }
        if has_var(vars, key) {
            let i = choose|i: int| 0 <= i < vars.len() && (#[trigger] vars[i]).name == key;
            if i > 0 {
                assert(tail[i - 1].name == key);
            }
        }
    }
}

/// The first of `mappings` that `vars` do not give, told by what they give instead.
fn find_problem<S>(vars: &Vec<EnvVar<S>>, mappings: &[(String, String)]) -> (problem: Option<
    EnvProblem,
>)
    ensures
        match problem {
            None => forall|j: int|
                0 <= j < mappings@.len() ==> gives(
                    model::vars(vars@),
                    #[trigger] model::pairs(mappings@)[j],
                ),
            Some(problem) => is_env_problem(
                problem,
                model::vars(vars@),
                model::pairs(mappings@),
            ),
        },
{
    let ghost all = model::vars(vars@);
    let ghost map = model::pairs(mappings@);
    let mut j: usize = 0;
    while j < mappings.len()
        invariant
            j <= mappings.len(),
            all == model::vars(vars@),
            map == model::pairs(mappings@),
            forall|k: int| 0 <= k < j ==> gives(all, #[trigger] map[k]),
        decreases mappings.len() - j,
    {
        let count: usize = vars.len();
        match find_var(vars, count, &mappings[j].0) {
            Some(at) => {
                proof {
                    lemma_value_at(all, at as int);
                }
                let matches: bool = match &vars[at].value {
                    Some(value) => *value == mappings[j].1,
                    None => false,
                };
                if !matches {
                    let problem: EnvProblem = EnvProblem::Mismatch {
                        key: mappings[j].0.clone(),
                        expected: mappings[j].1.clone(),
                        actual: vars[at].value.clone(),
                    };
                    assert(is_first_problem(problem, all, map, j as int));
                    return Some(problem);
                }
            },
            None => {
                proof {
                    assert(all.take(count as int) =~= all);
                    lemma_no_value(all, map[j as int].0);
                }
                let problem: EnvProblem = EnvProblem::Missing { key: mappings[j].0.clone() };
                assert(is_first_problem(problem, all, map, j as int));
                return Some(problem);
            },
        }
        j = j + 1;
    }
    None
}

/// What keeps the Deployment from having the mapped variables; nothing where it
/// has them all.
pub fn first_env_problem<S>(deployment: &Deployment<S>, mappings: &[(String, String)]) -> (problem:
    Option<EnvProblem>)
    ensures
        problem is None <==> env_matches(deployment.containers(), model::pairs(mappings@)),
        problem matches Some(problem) ==> is_problem(
            problem,
            deployment.containers(),
            model::pairs(mappings@),
        ),
{
    let ghost map = model::pairs(mappings@);
    match &deployment.spec {
        None => Some(EnvProblem::NoLifecycleContainer),
        Some(spec) => match &spec.pod_spec {
            None => Some(EnvProblem::NoLifecycleContainer),
            Some(pod) => match find_lifecycle(&pod.containers) {
                None => Some(EnvProblem::NoLifecycleContainer),
                Some(at) => {
                    let ghost list = model::containers(pod.containers@);
                    let problem: Option<EnvProblem> = match &pod.containers[at].env {
                        Some(vars) => find_problem(vars, mappings),
                        None => {
                            let none: Vec<EnvVar<S>> = Vec::new();
                            assert(model::vars(none@) =~= vars_of(list[at as int]));
                            find_problem(&none, mappings)
                        },
                    };
                    proof {
                        if problem is Some {
                            let vars = vars_of(list[at as int]);
                            let j = choose|j: int| #[trigger]
                                is_first_problem(problem->0, vars, map, j);
                            assert(!gives(vars, map[j]));
                        }
                    }
                    problem
                },
            },
        },
    }
}

/// Verify that the Deployment's variables match the expected mappings, by the reply to
/// the request that reads it again.
///
/// False where the lifecycle container is missing, or where the first variable
/// that a mapping names does not have its value. The reply is nothing where the request
/// failed.
pub fn verify_deployment_env<S>(
    reply: &Option<Deployment<S>>,
    namespace: &str,
    deployment_name: &str,
    mappings: &[(String, String)],
) -> (result: Result<bool, OperatorError>)
    ensures
        match *reply {
            None => result matches Err(error) && error@ == (Failure::RereadDeployment {
                namespace: namespace@,
                name: deployment_name@,
            }),
            Some(deployment) => result matches Ok(ok) && ok == env_matches(
                deployment.containers(),
                model::pairs(mappings@),
            ),
        },
{
    match reply {
        None => Err(
            Failure::RereadDeployment {
                namespace: namespace.to_owned(),
                name: deployment_name.to_owned(),
            },
        ),
        Some(deployment) => Ok(first_env_problem(deployment, mappings).is_none()),
    }
}

} // verus!

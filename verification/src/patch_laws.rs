//! What patching and checking mean for a Deployment, in terms of its containers and
//! their variables.

use vstd::prelude::*;

use crate::env;
use crate::env::EnvProblem;
use crate::model;

verus! {

/// The value of a key is that of the first mapping for it.
pub proof fn law_first_mapping_counts(mappings: Seq<(Seq<char>, Seq<char>)>, key: Seq<char>)
    ensures
        forall|j: int|
            0 <= j < mappings.len() && (#[trigger] mappings[j]).0 == key && (forall|k: int|
                0 <= k < j ==> (#[trigger] mappings[k]).0 != key) ==> env::mapped(mappings, key)
                == Some(mappings[j].1),
        (forall|j: int| 0 <= j < mappings.len() ==> (#[trigger] mappings[j]).0 != key)
            ==> env::mapped(mappings, key) is None,
    decreases mappings.len(),
{
    if mappings.len() > 0 {
        let rest = mappings.skip(1);
        law_first_mapping_counts(rest, key);
        assert forall|j: int|
            0 <= j < mappings.len() && (#[trigger] mappings[j]).0 == key && (forall|k: int|
                0 <= k < j ==> (#[trigger] mappings[k]).0 != key) implies env::mapped(mappings, key)
            == Some(mappings[j].1) by {
            if j > 0 {
                assert(mappings[0].0 != key);
                assert(rest[j - 1] == mappings[j]);
                assert forall|k: int| 0 <= k < j - 1 implies (#[trigger] rest[k]).0 != key by {
                    assert(rest[k] == mappings[k + 1]);
                }
            }
        }
        if forall|j: int| 0 <= j < mappings.len() ==> (#[trigger] mappings[j]).0 != key {
            assert(mappings[0].0 != key);
            assert forall|j: int| 0 <= j < rest.len() implies (#[trigger] rest[j]).0 != key by {
                assert(rest[j] == mappings[j + 1]);
            }
        }
    }
}

/// The value that variables give to a key is that of the first variable of that name.
pub proof fn law_first_variable_counts<S>(vars: Seq<model::EnvVarView<S>>, key: Seq<char>)
    ensures
        forall|i: int|
            0 <= i < vars.len() && (#[trigger] vars[i]).name == key && (forall|k: int|
                0 <= k < i ==> (#[trigger] vars[k]).name != key) ==> env::value_in(vars, key)
                == Some(vars[i].value),
        (forall|i: int| 0 <= i < vars.len() ==> (#[trigger] vars[i]).name != key) ==> env::value_in(
            vars,
            key,
        ) is None,
    decreases vars.len(),
{
    if vars.len() > 0 {
        let rest = vars.skip(1);
        law_first_variable_counts(rest, key);
        assert forall|i: int|
            0 <= i < vars.len() && (#[trigger] vars[i]).name == key && (forall|k: int|
                0 <= k < i ==> (#[trigger] vars[k]).name != key) implies env::value_in(vars, key)
            == Some(vars[i].value) by {
            if i > 0 {
                assert(vars[0].name != key);
                assert(rest[i - 1] == vars[i]);
                assert forall|k: int| 0 <= k < i - 1 implies (#[trigger] rest[k]).name != key by {
                    assert(rest[k] == vars[k + 1]);
                }
            }
        }
        if forall|i: int| 0 <= i < vars.len() ==> (#[trigger] vars[i]).name != key {
            assert(vars[0].name != key);
            assert forall|i: int| 0 <= i < rest.len() implies (#[trigger] rest[i]).name != key by {
                assert(rest[i] == vars[i + 1]);
            }
        }
    }
}

/// A variable that mappings are for, where it is among the merged ones, has the value of
/// the first of them and no source; one that no mapping is for is as it was. Behind them
/// stands one variable for each mapping that names none of them, in the order of the
/// mappings, with the mapping's value and no source.
pub proof fn law_merge_means<S>(
    vars: Seq<model::EnvVarView<S>>,
    mappings: Seq<(Seq<char>, Seq<char>)>,
)
    ensures
        env::merged(vars, mappings).len() >= vars.len(),
        forall|i: int, j: int|
            0 <= i < vars.len() && 0 <= j < mappings.len() && (#[trigger] vars[i]).name == (
            #[trigger] mappings[j]).0 && (forall|k: int|
                0 <= k < j ==> (#[trigger] mappings[k]).0 != vars[i].name) ==> env::merged(
                vars,
                mappings,
            )[i] == (model::EnvVarView::<S> {
                name: vars[i].name,
                value: Some(mappings[j].1),
                value_from: None,
            }),
        forall|i: int|
            0 <= i < vars.len() && (forall|j: int|
                0 <= j < mappings.len() ==> (#[trigger] mappings[j]).0 != vars[i].name)
                ==> env::merged(vars, mappings)[i] == #[trigger] vars[i],
        env::merged(vars, mappings).skip(vars.len() as int) == mappings.filter(
            |pair: (Seq<char>, Seq<char>)|
                forall|i: int| 0 <= i < vars.len() ==> (#[trigger] vars[i]).name != pair.0,
        ).map_values(
            |pair: (Seq<char>, Seq<char>)|
                model::EnvVarView::<S> { name: pair.0, value: Some(pair.1), value_from: None },
        ),
{
    let all = env::merged(vars, mappings);
    assert forall|i: int, j: int|
        0 <= i < vars.len() && 0 <= j < mappings.len() && (#[trigger] vars[i]).name == (
        #[trigger] mappings[j]).0 && (forall|k: int|
            0 <= k < j ==> (#[trigger] mappings[k]).0 != vars[i].name) implies all[i] == (
    model::EnvVarView::<S> {
        name: vars[i].name,
        value: Some(mappings[j].1),
        value_from: None,
    }) by {
        law_first_mapping_counts(mappings, vars[i].name);
    }
    assert forall|i: int|
        0 <= i < vars.len() && (forall|j: int|
            0 <= j < mappings.len() ==> (#[trigger] mappings[j]).0 != vars[i].name) implies all[i]
        == #[trigger] vars[i] by {
        law_first_mapping_counts(mappings, vars[i].name);
    }
    let old_test = |pair: (Seq<char>, Seq<char>)| !env::has_var(vars, pair.0);
    let test = |pair: (Seq<char>, Seq<char>)|
        forall|i: int| 0 <= i < vars.len() ==> (#[trigger] vars[i]).name != pair.0;
    assert(old_test =~= test);
    let old_make = |pair: (Seq<char>, Seq<char>)| env::plain::<S>(pair);
    let make = |pair: (Seq<char>, Seq<char>)|
        model::EnvVarView::<S> { name: pair.0, value: Some(pair.1), value_from: None };
    assert(old_make =~= make);
    assert(all.skip(vars.len() as int) =~= mappings.filter(test).map_values(make));
}

/// A list with a container of that name has a first one.
proof fn lemma_first_container<S>(list: Seq<model::ContainerView<S>>, i: int)
    requires
        0 <= i < list.len(),
        list[i].name == "openshift-pipelines-operator-lifecycle"@,
    ensures
        exists|at: int| env::is_lifecycle(list, at),
    decreases i,
{
    if exists|k: int|
        0 <= k < i && (#[trigger] list[k]).name == "openshift-pipelines-operator-lifecycle"@ {
        let k = choose|k: int|
            0 <= k < i && (#[trigger] list[k]).name == "openshift-pipelines-operator-lifecycle"@;
        lemma_first_container(list, k);
    } else {
        assert(env::is_lifecycle(list, i));
    }
}

/// The lifecycle container is the first container with exactly that name, and there is
/// none only where no container has that name.
pub proof fn law_lifecycle_container_has_that_name<S>(list: Seq<model::ContainerView<S>>)
    ensures
        env::lifecycle_place(list) matches Some(at) ==> 0 <= at < list.len() && list[at].name
            == "openshift-pipelines-operator-lifecycle"@ && forall|k: int|
            0 <= k < at ==> (#[trigger] list[k]).name
                != "openshift-pipelines-operator-lifecycle"@,
        env::lifecycle_place(list) is None ==> forall|k: int|
            0 <= k < list.len() ==> (#[trigger] list[k]).name
                != "openshift-pipelines-operator-lifecycle"@,
{
    if exists|k: int|
        0 <= k < list.len() && (#[trigger] list[k]).name
            == "openshift-pipelines-operator-lifecycle"@ {
        let k = choose|k: int|
            0 <= k < list.len() && (#[trigger] list[k]).name
                == "openshift-pipelines-operator-lifecycle"@;
        lemma_first_container(list, k);
    }
}

/// A patch is refused exactly where no container is called
/// "openshift-pipelines-operator-lifecycle". Otherwise the first container of that name
/// gets the mappings merged into its variables, a container without a list of variables
/// counting as one with none, and every other container stays as it was.
pub proof fn law_patch_reaches_the_lifecycle_container<S>(
    list: Seq<model::ContainerView<S>>,
    mappings: Seq<(Seq<char>, Seq<char>)>,
)
    ensures
        env::patched(list, mappings) is None <==> forall|k: int|
            0 <= k < list.len() ==> (#[trigger] list[k]).name
                != "openshift-pipelines-operator-lifecycle"@,
        env::patched(list, mappings) matches Some(after) ==> {
            &&& after.len() == list.len()
            &&& forall|k: int|
                0 <= k < list.len() && list[k].name != "openshift-pipelines-operator-lifecycle"@
                    ==> #[trigger] after[k] == list[k]
            &&& forall|at: int|
                0 <= at < list.len() && list[at].name == "openshift-pipelines-operator-lifecycle"@
                    && (forall|k: int|
                    0 <= k < at ==> (#[trigger] list[k]).name
                        != "openshift-pipelines-operator-lifecycle"@) ==> (#[trigger] after[at]).name
                    == list[at].name && after[at].env == Some(
                    env::merged(
                        match list[at].env {
                            Some(vars) => vars,
                            None => Seq::empty(),
                        },
                        mappings,
                    ),
                )
            &&& forall|at: int, k: int|
                0 <= at < k < list.len() && (#[trigger] list[at]).name
                    == "openshift-pipelines-operator-lifecycle"@ ==> #[trigger] after[k] == list[k]
        },
{
    law_lifecycle_container_has_that_name(list);
    if env::patched(list, mappings) is Some {
        let after = env::patched(list, mappings)->0;
        let place = env::lifecycle_place(list)->0;
        assert forall|at: int|
            0 <= at < list.len() && list[at].name == "openshift-pipelines-operator-lifecycle"@ && (
            forall|k: int|
                0 <= k < at ==> (#[trigger] list[k]).name
                    != "openshift-pipelines-operator-lifecycle"@) implies (#[trigger] after[at]).name
            == list[at].name && after[at].env == Some(
            env::merged(
                match list[at].env {
                    Some(vars) => vars,
                    None => Seq::empty(),
                },
                mappings,
            ),
        ) by {
            if place < at {
                assert(list[place].name != "openshift-pipelines-operator-lifecycle"@);
            }
            if at < place {
                assert(list[at].name != "openshift-pipelines-operator-lifecycle"@);
            }
        }
    }
}

/// Where the check passes, and however many mappings there are, the lifecycle container
/// has for each of them a variable of its name, and the first such has its value.
pub proof fn law_check_looks_at_every_mapping<S>(
    list: Seq<model::ContainerView<S>>,
    mappings: Seq<(Seq<char>, Seq<char>)>,
    at: int,
    j: int,
)
    requires
        0 <= at < list.len(),
        list[at].name == "openshift-pipelines-operator-lifecycle"@,
        forall|k: int|
            0 <= k < at ==> (#[trigger] list[k]).name
                != "openshift-pipelines-operator-lifecycle"@,
        0 <= j < mappings.len(),
        env::env_matches(Some(list), mappings),
    ensures
        list[at].env is Some,
        exists|i: int|
            {
                &&& 0 <= i < list[at].env->0.len()
                &&& (#[trigger] list[at].env->0[i]).name == mappings[j].0
                &&& list[at].env->0[i].value == Some(mappings[j].1)
                &&& forall|k: int|
                    0 <= k < i ==> (#[trigger] list[at].env->0[k]).name != mappings[j].0
            },
{
    lemma_place(list, at);
    let vars = env::vars_of(list[at]);
    let key = mappings[j].0;
    assert(env::gives(vars, mappings[j]));
    law_first_variable_counts(vars, key);
    if exists|i: int| 0 <= i < vars.len() && (#[trigger] vars[i]).name == key {
        let some = choose|i: int| 0 <= i < vars.len() && (#[trigger] vars[i]).name == key;
        lemma_first_variable(vars, key, some);
        let first = choose|i: int|
            0 <= i < vars.len() && (#[trigger] vars[i]).name == key && forall|k: int|
                0 <= k < i ==> (#[trigger] vars[k]).name != key;
        assert(env::value_in(vars, key) == Some(vars[first].value));
        assert(list[at].env->0[first] == vars[first]);
    }
}

/// Nothing else keeps the check from passing: it passes where, for each mapping, the
/// variable at its place in `places` is the first of the mapping's name and has the
/// mapping's value.
pub proof fn law_check_asks_for_nothing_else<S>(
    list: Seq<model::ContainerView<S>>,
    mappings: Seq<(Seq<char>, Seq<char>)>,
    at: int,
    places: Seq<int>,
)
    requires
        0 <= at < list.len(),
        list[at].name == "openshift-pipelines-operator-lifecycle"@,
        forall|k: int|
            0 <= k < at ==> (#[trigger] list[k]).name
                != "openshift-pipelines-operator-lifecycle"@,
        places.len() == mappings.len(),
        forall|j: int|
            0 <= j < mappings.len() ==> {
                &&& list[at].env is Some
                &&& 0 <= #[trigger] places[j] < list[at].env->0.len()
                &&& list[at].env->0[places[j]].name == mappings[j].0
                &&& list[at].env->0[places[j]].value == Some(mappings[j].1)
                &&& forall|k: int|
                    0 <= k < places[j] ==> (#[trigger] list[at].env->0[k]).name != mappings[j].0
            },
    ensures
        env::env_matches(Some(list), mappings),
{
    lemma_place(list, at);
    let vars = env::vars_of(list[at]);
    assert forall|j: int| 0 <= j < mappings.len() implies env::gives(
        vars,
        #[trigger] mappings[j],
    ) by {
        let first = places[j];
        law_first_variable_counts(vars, mappings[j].0);
        assert(vars[first].name == mappings[j].0);
        assert forall|k: int| 0 <= k < first implies (#[trigger] vars[k]).name
            != mappings[j].0 by {
            assert(list[at].env->0[k].name != mappings[j].0);
        }
    }
}

/// The first container of that name is the lifecycle container.
proof fn lemma_place<S>(list: Seq<model::ContainerView<S>>, at: int)
    requires
        0 <= at < list.len(),
        list[at].name == "openshift-pipelines-operator-lifecycle"@,
        forall|k: int|
            0 <= k < at ==> (#[trigger] list[k]).name
                != "openshift-pipelines-operator-lifecycle"@,
    ensures
        env::lifecycle_place(list) == Some(at),
{
    law_lifecycle_container_has_that_name(list);
    let place = env::lifecycle_place(list)->0;
    assert(env::lifecycle_place(list) is Some);
    if place < at {
        assert(list[place].name != "openshift-pipelines-operator-lifecycle"@);
    }
}

/// A name that occurs has a first place.
proof fn lemma_first_variable<S>(vars: Seq<model::EnvVarView<S>>, key: Seq<char>, i: int)
    requires
        0 <= i < vars.len(),
        vars[i].name == key,
    ensures
        exists|at: int|
            0 <= at < vars.len() && (#[trigger] vars[at]).name == key && forall|k: int|
                0 <= k < at ==> (#[trigger] vars[k]).name != key,
    decreases i,
{
    if exists|k: int| 0 <= k < i && (#[trigger] vars[k]).name == key {
        let k = choose|k: int| 0 <= k < i && (#[trigger] vars[k]).name == key;
        lemma_first_variable(vars, key, k);
    } else {
        assert(vars[i].name == key);
    }
}

/// The check fails, whatever the mappings are, where no container has that name, or
/// where there are no containers at all.
pub proof fn law_check_needs_the_lifecycle_container<S>(
    list: Seq<model::ContainerView<S>>,
    mappings: Seq<(Seq<char>, Seq<char>)>,
)
    requires
        forall|k: int|
            0 <= k < list.len() ==> (#[trigger] list[k]).name
                != "openshift-pipelines-operator-lifecycle"@,
    ensures
        !env::env_matches(Some(list), mappings),
        !env::env_matches(None::<Seq<model::ContainerView<S>>>, mappings),
{
    law_lifecycle_container_has_that_name(list);
}

/// A variable that lost its mapped value, or that is gone, is noticed: the check fails
/// where, for one of the mappings, no variable of its name has its value.
pub proof fn law_a_lost_value_is_noticed<S>(
    other: Seq<model::ContainerView<S>>,
    mappings: Seq<(Seq<char>, Seq<char>)>,
    at: int,
    j: int,
)
    requires
        0 <= at < other.len(),
        other[at].name == "openshift-pipelines-operator-lifecycle"@,
        forall|k: int|
            0 <= k < at ==> (#[trigger] other[k]).name
                != "openshift-pipelines-operator-lifecycle"@,
        0 <= j < mappings.len(),
        other[at].env matches Some(vars) ==> forall|i: int|
            0 <= i < vars.len() && (#[trigger] vars[i]).name == mappings[j].0 ==> vars[i].value
                != Some(mappings[j].1),
    ensures
        !env::env_matches(Some(other), mappings),
{
    if env::env_matches(Some(other), mappings) {
        law_check_looks_at_every_mapping(other, mappings, at, j);
    }
}

/// What is told of a failed check is so: the lifecycle container is missing only where no
/// container has that name, a missing variable is that of a mapping and of no variable,
/// and a mismatch tells the mapping's value and the different one that is there.
pub proof fn law_problems_are_so<S>(
    list: Seq<model::ContainerView<S>>,
    mappings: Seq<(Seq<char>, Seq<char>)>,
    at: int,
    key: String,
    expected: String,
    actual: Option<String>,
)
    requires
        0 <= at < list.len(),
        list[at].name == "openshift-pipelines-operator-lifecycle"@,
        forall|k: int|
            0 <= k < at ==> (#[trigger] list[k]).name
                != "openshift-pipelines-operator-lifecycle"@,
    ensures
        !env::is_problem(EnvProblem::NoLifecycleContainer, Some(list), mappings),
        env::is_problem(EnvProblem::Missing { key }, Some(list), mappings) ==> (exists|j: int|
            0 <= j < mappings.len() && (#[trigger] mappings[j]).0 == key@) && (list[at].env matches
            Some(vars) ==> forall|i: int|
            0 <= i < vars.len() ==> (#[trigger] vars[i]).name != key@),
        env::is_problem(EnvProblem::Mismatch { key, expected, actual }, Some(list), mappings)
            ==> mappings.contains((key@, expected@)) && list[at].env is Some && exists|i: int|
            {
                &&& 0 <= i < list[at].env->0.len()
                &&& (#[trigger] list[at].env->0[i]).name == key@
                &&& forall|k: int| 0 <= k < i ==> (#[trigger] list[at].env->0[k]).name != key@
                &&& list[at].env->0[i].value is Some <==> actual is Some
                &&& actual is Some ==> list[at].env->0[i].value == Some(actual->0@)
                &&& list[at].env->0[i].value != Some(expected@)
            },
{
    lemma_place(list, at);
    let vars = env::vars_of(list[at]);
    law_first_variable_counts(vars, key@);
    if exists|i: int| 0 <= i < vars.len() && (#[trigger] vars[i]).name == key@ {
        let some = choose|i: int| 0 <= i < vars.len() && (#[trigger] vars[i]).name == key@;
        lemma_first_variable(vars, key@, some);
        let first = choose|i: int|
            0 <= i < vars.len() && (#[trigger] vars[i]).name == key@ && forall|k: int|
                0 <= k < i ==> (#[trigger] vars[k]).name != key@;
        assert(env::value_in(vars, key@) == Some(vars[first].value));
        assert(list[at].env->0[first] == vars[first]);
    }
    let missing = EnvProblem::Missing { key };
    if env::is_problem(missing, Some(list), mappings) {
        let j = choose|j: int| #[trigger] env::is_first_problem(missing, vars, mappings, j);
        assert(mappings[j].0 == key@);
    }
    let mismatch = EnvProblem::Mismatch { key, expected, actual };
    if env::is_problem(mismatch, Some(list), mappings) {
        let j = choose|j: int| #[trigger] env::is_first_problem(mismatch, vars, mappings, j);
        assert(mappings[j] == (key@, expected@));
    }
}

/// What is told of a failed check is the first thing that fails: the mappings before the
/// one that it is about all hold.
pub proof fn law_the_first_problem_is_told<S>(
    list: Seq<model::ContainerView<S>>,
    mappings: Seq<(Seq<char>, Seq<char>)>,
    at: int,
    problem: EnvProblem,
)
    requires
        0 <= at < list.len(),
        list[at].name == "openshift-pipelines-operator-lifecycle"@,
        forall|k: int|
            0 <= k < at ==> (#[trigger] list[k]).name
                != "openshift-pipelines-operator-lifecycle"@,
        env::is_problem(problem, Some(list), mappings),
    ensures
        exists|j: int|
            {
                &&& 0 <= j < mappings.len()
                &&& (#[trigger] mappings[j]).0 == match problem {
                    EnvProblem::Missing { key } => key@,
                    EnvProblem::Mismatch { key, .. } => key@,
                    EnvProblem::NoLifecycleContainer => Seq::empty(),
                }
                &&& env::env_matches(Some(list), mappings.take(j))
                &&& !env::env_matches(Some(list), mappings.take(j + 1))
            },
{
    lemma_place(list, at);
    let vars = env::vars_of(list[at]);
    let j = choose|j: int| #[trigger] env::is_first_problem(problem, vars, mappings, j);
    assert(!env::gives(vars, mappings[j]));
    assert(mappings.take(j + 1)[j] == mappings[j]);
    assert forall|k: int| 0 <= k < mappings.take(j).len() implies env::gives(
        vars,
        #[trigger] mappings.take(j)[k],
    ) by {
        assert(mappings.take(j)[k] == mappings[k]);
    }
    assert(mappings[j].0 == mappings[j].0);
}

/// Where no container has that name, or there are no containers, that is what is told.
pub proof fn law_a_missing_container_is_told<S>(
    list: Seq<model::ContainerView<S>>,
    mappings: Seq<(Seq<char>, Seq<char>)>,
    problem: EnvProblem,
)
    requires
        forall|k: int|
            0 <= k < list.len() ==> (#[trigger] list[k]).name
                != "openshift-pipelines-operator-lifecycle"@,
    ensures
        env::is_problem(problem, Some(list), mappings) <==> problem is NoLifecycleContainer,
        env::is_problem(problem, None::<Seq<model::ContainerView<S>>>, mappings)
            <==> problem is NoLifecycleContainer,
{
    law_lifecycle_container_has_that_name(list);
}

} // verus!

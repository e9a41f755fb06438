//! What patching and checking the operator's variables promise together.

use vstd::prelude::*;

use crate::env;
use crate::model;

verus! {

/// No key is mapped to two values.
pub open spec fn consistent(mappings: Seq<(Seq<char>, Seq<char>)>) -> bool {
    forall|i: int, j: int|
        0 <= i < mappings.len() && 0 <= j < mappings.len() && (#[trigger] mappings[i]).0 == (
        #[trigger] mappings[j]).0 ==> mappings[i].1 == mappings[j].1
}

/// One of `mappings` is for `key`.
pub open spec fn maps(mappings: Seq<(Seq<char>, Seq<char>)>, key: Seq<char>) -> bool {
    exists|i: int| 0 <= i < mappings.len() && (#[trigger] mappings[i]).0 == key
}

/// A mapped key has the value of one of its mappings, and an unmapped key none.
proof fn lemma_mapped_value(mappings: Seq<(Seq<char>, Seq<char>)>, key: Seq<char>)
    ensures
        maps(mappings, key) ==> exists|i: int|
            0 <= i < mappings.len() && (#[trigger] mappings[i]).0 == key && env::mapped(
                mappings,
                key,
            ) == Some(mappings[i].1),
        !maps(mappings, key) ==> env::mapped(mappings, key) is None,
    decreases mappings.len(),
{
    if mappings.len() > 0 {
        let tail = mappings.skip(1);
        if mappings[0].0 != key {
            lemma_mapped_value(tail, key);
            if maps(mappings, key) {
                let i = choose|i: int|
                    0 <= i < mappings.len() && (#[trigger] mappings[i]).0 == key;
                assert(tail[i - 1].0 == key);
                let k = choose|k: int|
                    0 <= k < tail.len() && (#[trigger] tail[k]).0 == key && env::mapped(tail, key)
                        == Some(tail[k].1);
                assert(mappings[k + 1] == tail[k]);
            } else if maps(tail, key) {
                let i = choose|i: int| 0 <= i < tail.len() && (#[trigger] tail[i]).0 == key;
                assert(mappings[i + 1].0 == key);
            }
        }
    }
}

/// A mapping behind others counts where none of them is for its key.
proof fn lemma_mapped_push(
    mappings: Seq<(Seq<char>, Seq<char>)>,
    pair: (Seq<char>, Seq<char>),
    key: Seq<char>,
)
    ensures
        env::mapped(mappings.push(pair), key) == match env::mapped(mappings, key) {
            Some(value) => Some(value),
            None => if pair.0 == key {
                Some(pair.1)
            } else {
                None
            },
        },
    decreases mappings.len(),
{
    let longer = mappings.push(pair);
    if mappings.len() == 0 {
        assert(longer.skip(1) =~= Seq::empty());
    } else {
        assert(longer[0] == mappings[0]);
        if mappings[0].0 != key {
            assert(longer.skip(1) =~= mappings.skip(1).push(pair));
            lemma_mapped_push(mappings.skip(1), pair, key);
        }
    }
}

/// For a key of no variable the unmatched mappings are as good as all.
proof fn lemma_mapped_unmatched<S>(
    vars: Seq<model::EnvVarView<S>>,
    mappings: Seq<(Seq<char>, Seq<char>)>,
    key: Seq<char>,
)
    requires
        !env::has_var(vars, key),
    ensures
        env::mapped(env::unmatched(vars, mappings), key) == env::mapped(mappings, key),
    decreases mappings.len(),
{
    reveal(Seq::filter);
    if mappings.len() > 0 {
        let shorter = mappings.drop_last();
        lemma_mapped_unmatched(vars, shorter, key);
        lemma_mapped_push(shorter, mappings.last(), key);
        lemma_mapped_push(env::unmatched(vars, shorter), mappings.last(), key);
        assert(shorter.push(mappings.last()) =~= mappings);
    }
}

/// Variables made of mappings have the mapped values.
proof fn lemma_value_in_plain<S>(mappings: Seq<(Seq<char>, Seq<char>)>, key: Seq<char>)
    ensures
        env::value_in(
            mappings.map_values(|pair: (Seq<char>, Seq<char>)| env::plain::<S>(pair)),
            key,
        ) == match env::mapped(mappings, key) {
            Some(value) => Some(Some(value)),
            None => None,
        },
    decreases mappings.len(),
{
    let made = mappings.map_values(|pair: (Seq<char>, Seq<char>)| env::plain::<S>(pair));
    if mappings.len() > 0 {
        assert(made[0] == env::plain::<S>(mappings[0]));
        lemma_value_in_plain::<S>(mappings.skip(1), key);
        assert(made.skip(1) =~= mappings.skip(1).map_values(
            |pair: (Seq<char>, Seq<char>)| env::plain::<S>(pair),
        ));
    }
}

/// The value in two lists is the one in the first, where it has one.
proof fn lemma_value_in_both<S>(
    a: Seq<model::EnvVarView<S>>,
    b: Seq<model::EnvVarView<S>>,
    key: Seq<char>,
)
    ensures
        env::value_in(a + b, key) == match env::value_in(a, key) {
            Some(value) => Some(value),
            None => env::value_in(b, key),
        },
    decreases a.len(),
{
    if a.len() == 0 {
        assert(a + b =~= b);
    } else {
        assert((a + b)[0] == a[0]);
        assert((a + b).skip(1) =~= a.skip(1) + b);
        lemma_value_in_both(a.skip(1), b, key);
    }
}

/// An updated variable with a mapped name has the mapped value.
proof fn lemma_value_in_updated<S>(
    vars: Seq<model::EnvVarView<S>>,
    mappings: Seq<(Seq<char>, Seq<char>)>,
    key: Seq<char>,
)
    requires
        env::mapped(mappings, key) is Some,
    ensures
        env::value_in(
            vars.map_values(|var: model::EnvVarView<S>| env::updated(var, mappings)),
            key,
        ) == if env::has_var(vars, key) {
            Some(env::mapped(mappings, key))
        } else {
            None
        },
    decreases vars.len(),
{
    let made = vars.map_values(|var: model::EnvVarView<S>| env::updated(var, mappings));
    if vars.len() > 0 {
        let tail = vars.skip(1);
        assert(made[0] == env::updated(vars[0], mappings));
        lemma_value_in_updated(tail, mappings, key);
        assert(made.skip(1) =~= tail.map_values(
            |var: model::EnvVarView<S>| env::updated(var, mappings),
        ));
        if vars[0].name != key {
            if env::has_var(vars, key) {
                let i = choose|i: int| 0 <= i < vars.len() && (#[trigger] vars[i]).name == key;
                assert(tail[i - 1].name == key);
            }
            if env::has_var(tail, key) {
                let i = choose|i: int| 0 <= i < tail.len() && (#[trigger] tail[i]).name == key;
                assert(vars[i + 1].name == key);
            }
        }
    }
}

/// Reading a mapped key out of merged variables gives what the first mapping for
/// it wrote, whatever the variables were.
pub proof fn law_merged_value<S>(
    vars: Seq<model::EnvVarView<S>>,
    mappings: Seq<(Seq<char>, Seq<char>)>,
    key: Seq<char>,
)
    requires
        maps(mappings, key),
    ensures
        env::mapped(mappings, key) is Some,
        env::value_in(env::merged(vars, mappings), key) == Some(env::mapped(mappings, key)),
{
    lemma_mapped_value(mappings, key);
    lemma_value_in_updated(vars, mappings, key);
    let a = vars.map_values(|var: model::EnvVarView<S>| env::updated(var, mappings));
    let b = env::unmatched(vars, mappings).map_values(
        |pair: (Seq<char>, Seq<char>)| env::plain::<S>(pair),
    );
    lemma_value_in_both(a, b, key);
    if !env::has_var(vars, key) {
        lemma_mapped_unmatched(vars, mappings, key);
        lemma_value_in_plain::<S>(env::unmatched(vars, mappings), key);
    }
}

/// Mappings give each of their keys one value exactly where they are consistent.
proof fn lemma_consistent(mappings: Seq<(Seq<char>, Seq<char>)>)
    ensures
        consistent(mappings) <==> forall|j: int|
            0 <= j < mappings.len() ==> env::mapped(mappings, (#[trigger] mappings[j]).0) == Some(
                mappings[j].1,
            ),
{
    let each = forall|j: int|
        0 <= j < mappings.len() ==> env::mapped(mappings, (#[trigger] mappings[j]).0) == Some(
            mappings[j].1,
        );
    if consistent(mappings) {
        assert forall|j: int| 0 <= j < mappings.len() implies env::mapped(
            mappings,
            (#[trigger] mappings[j]).0,
        ) == Some(mappings[j].1) by {
            assert(maps(mappings, mappings[j].0));
            lemma_mapped_value(mappings, mappings[j].0);
        }
    }
    if each {
        assert forall|i: int, j: int|
            0 <= i < mappings.len() && 0 <= j < mappings.len() && (#[trigger] mappings[i]).0 == (
            #[trigger] mappings[j]).0 implies mappings[i].1 == mappings[j].1 by {
            assert(env::mapped(mappings, mappings[i].0) == Some(mappings[i].1));
            assert(env::mapped(mappings, mappings[j].0) == Some(mappings[j].1));
        }
    }
}

/// A patched Deployment passes the check for the same mappings, unless they map one
/// key to two values: then no Deployment passes.
pub proof fn law_patched_env_verifies<S>(
    list: Seq<model::ContainerView<S>>,
    mappings: Seq<(Seq<char>, Seq<char>)>,
)
    requires
        env::lifecycle_place(list) is Some,
    ensures
        env::env_matches(env::patched(list, mappings), mappings) <==> consistent(mappings),
        env::env_matches(Some(list), mappings) ==> consistent(mappings),
{
    let at = env::lifecycle_place(list)->0;
    let after = env::patched(list, mappings)->0;
    assert(env::is_lifecycle(list, at));
    assert(after[at].name == list[at].name);
    assert(env::is_lifecycle(after, at)) by {
        assert forall|k: int| 0 <= k < at implies (#[trigger] after[k]).name
            != env::LIFECYCLE_CONTAINER@ by {
            assert(after[k] == list[k]);
        }
    }
    env::lemma_lifecycle_place(after, at);
    let vars = env::merged(env::vars_of(list[at]), mappings);
    assert(env::vars_of(after[at]) == vars);
    assert forall|j: int| 0 <= j < mappings.len() implies (env::gives(
        vars,
        #[trigger] mappings[j],
    ) <==> env::mapped(mappings, mappings[j].0) == Some(mappings[j].1)) by {
        assert(maps(mappings, mappings[j].0));
        law_merged_value(env::vars_of(list[at]), mappings, mappings[j].0);
    }
    lemma_consistent(mappings);
    if env::env_matches(Some(list), mappings) {
        assert forall|i: int, j: int|
            0 <= i < mappings.len() && 0 <= j < mappings.len() && (#[trigger] mappings[i]).0 == (
            #[trigger] mappings[j]).0 implies mappings[i].1 == mappings[j].1 by {
            assert(env::gives(env::vars_of(list[at]), mappings[i]));
            assert(env::gives(env::vars_of(list[at]), mappings[j]));
        }
    }
}

/// Merging leaves every variable in its place and under its name, and one that no
/// mapping is for as it was, its source with it.
pub proof fn law_merge_keeps_the_rest<S>(
    vars: Seq<model::EnvVarView<S>>,
    mappings: Seq<(Seq<char>, Seq<char>)>,
    i: int,
)
    requires
        0 <= i < vars.len(),
    ensures
        i < env::merged(vars, mappings).len(),
        env::merged(vars, mappings)[i].name == vars[i].name,
        !maps(mappings, vars[i].name) ==> env::merged(vars, mappings)[i] == vars[i],
        maps(mappings, vars[i].name) ==> env::merged(vars, mappings)[i].value_from is None,
{
    lemma_mapped_value(mappings, vars[i].name);
}

/// Patching leaves every container but the lifecycle container as it was.
pub proof fn law_patch_keeps_other_containers<S>(
    list: Seq<model::ContainerView<S>>,
    mappings: Seq<(Seq<char>, Seq<char>)>,
    i: int,
)
    requires
        0 <= i < list.len(),
        env::lifecycle_place(list) is Some,
    ensures
        env::patched(list, mappings)->0.len() == list.len(),
        env::patched(list, mappings)->0[i].name == list[i].name,
        env::lifecycle_place(list) != Some(i) ==> env::patched(list, mappings)->0[i] == list[i],
{
    assert(env::is_lifecycle(list, env::lifecycle_place(list)->0));
}

/// Merging a second time changes nothing, unless a key that names no variable is
/// mapped to two values.
pub proof fn law_merge_is_stable<S>(
    vars: Seq<model::EnvVarView<S>>,
    mappings: Seq<(Seq<char>, Seq<char>)>,
)
    ensures
        env::merged(env::merged(vars, mappings), mappings) == env::merged(vars, mappings) <==> (
        forall|j: int|
            0 <= j < mappings.len() && !env::has_var(vars, (#[trigger] mappings[j]).0)
                ==> env::mapped(mappings, mappings[j].0) == Some(mappings[j].1)),
{
    let once = env::merged(vars, mappings);
    let twice = env::merged(once, mappings);
    let added = env::unmatched(vars, mappings);
    let n = vars.len() as int;
    assert forall|j: int| 0 <= j < mappings.len() implies env::has_var(
        once,
        (#[trigger] mappings[j]).0,
    ) by {
        lemma_key_is_in(vars, mappings, j);
    }
    assert(env::unmatched(once, mappings).len() == 0) by {
        lemma_none_unmatched(once, mappings);
    }
    assert(twice.len() == once.len());
    assert forall|i: int| 0 <= i < n implies #[trigger] twice[i] == once[i] by {
        assert(once[i] == env::updated(vars[i], mappings));
        assert(twice[i] == env::updated(once[i], mappings));
    }
    assert forall|i: int| 0 <= i < added.len() implies (#[trigger] twice[n + i] == once[n + i]
        <==> env::mapped(mappings, added[i].0) == Some(added[i].1)) by {
        assert(once[n + i] == env::plain::<S>(added[i]));
        assert(twice[n + i] == env::updated(once[n + i], mappings));
        lemma_added(vars, mappings, i);
        lemma_mapped_value(mappings, added[i].0);
    }
    let each = forall|j: int|
        0 <= j < mappings.len() && !env::has_var(vars, (#[trigger] mappings[j]).0) ==> env::mapped(
            mappings,
            mappings[j].0,
        ) == Some(mappings[j].1);
    if each {
        assert forall|i: int| 0 <= i < once.len() implies #[trigger] twice[i] == once[i] by {
            if i >= n {
                lemma_added(vars, mappings, i - n);
                assert(twice[n + (i - n)] == once[n + (i - n)]);
            }
        }
        assert(twice =~= once);
    }
    if twice == once {
        assert forall|j: int|
            0 <= j < mappings.len() && !env::has_var(
                vars,
                (#[trigger] mappings[j]).0,
            ) implies env::mapped(mappings, mappings[j].0) == Some(mappings[j].1) by {
            lemma_is_added(vars, mappings, j);
            let i = choose|i: int| 0 <= i < added.len() && #[trigger] added[i] == mappings[j];
            assert(twice[n + i] == once[n + i]);
        }
    }
}

/// An unmatched mapping is one of the mappings, and names no variable.
proof fn lemma_added<S>(
    vars: Seq<model::EnvVarView<S>>,
    mappings: Seq<(Seq<char>, Seq<char>)>,
    i: int,
)
    requires
        0 <= i < env::unmatched(vars, mappings).len(),
    ensures
        !env::has_var(vars, env::unmatched(vars, mappings)[i].0),
        maps(mappings, env::unmatched(vars, mappings)[i].0),
        exists|j: int|
            0 <= j < mappings.len() && #[trigger] mappings[j] == env::unmatched(vars, mappings)[i],
    decreases mappings.len(),
{
    reveal(Seq::filter);
    let added = env::unmatched(vars, mappings);
    if mappings.len() > 0 {
        let shorter = mappings.drop_last();
        let before = env::unmatched(vars, shorter);
        if i < before.len() {
            lemma_added(vars, shorter, i);
            let j = choose|j: int| 0 <= j < shorter.len() && #[trigger] shorter[j] == before[i];
            assert(mappings[j] == added[i]);
        } else {
            assert(mappings[mappings.len() - 1] == added[i]);
        }
    }
}

/// A mapping that names no variable is among the unmatched ones.
proof fn lemma_is_added<S>(
    vars: Seq<model::EnvVarView<S>>,
    mappings: Seq<(Seq<char>, Seq<char>)>,
    j: int,
)
    requires
        0 <= j < mappings.len(),
        !env::has_var(vars, mappings[j].0),
    ensures
        exists|i: int|
            0 <= i < env::unmatched(vars, mappings).len() && #[trigger] env::unmatched(
                vars,
                mappings,
            )[i] == mappings[j],
    decreases mappings.len(),
{
    reveal(Seq::filter);
    let added = env::unmatched(vars, mappings);
    let shorter = mappings.drop_last();
    let before = env::unmatched(vars, shorter);
    if j < shorter.len() {
        lemma_is_added(vars, shorter, j);
        let i = choose|i: int| 0 <= i < before.len() && #[trigger] before[i] == shorter[j];
        assert(added[i] == mappings[j]);
    } else {
        assert(added[before.len() as int] == mappings[j]);
    }
}

/// After merging, every mapped key names a variable.
proof fn lemma_key_is_in<S>(
    vars: Seq<model::EnvVarView<S>>,
    mappings: Seq<(Seq<char>, Seq<char>)>,
    j: int,
)
    requires
        0 <= j < mappings.len(),
    ensures
        env::has_var(env::merged(vars, mappings), mappings[j].0),
{
    let once = env::merged(vars, mappings);
    let key = mappings[j].0;
    if env::has_var(vars, key) {
        let i = choose|i: int| 0 <= i < vars.len() && (#[trigger] vars[i]).name == key;
        assert(once[i].name == key);
    } else {
        lemma_is_added(vars, mappings, j);
        let added = env::unmatched(vars, mappings);
        let i = choose|i: int| 0 <= i < added.len() && #[trigger] added[i] == mappings[j];
        assert(once[vars.len() + i].name == key);
    }
}

/// Where every mapped key names a variable nothing is unmatched.
proof fn lemma_none_unmatched<S>(
    vars: Seq<model::EnvVarView<S>>,
    mappings: Seq<(Seq<char>, Seq<char>)>,
)
    requires
        forall|j: int|
            0 <= j < mappings.len() ==> env::has_var(vars, (#[trigger] mappings[j]).0),
    ensures
        env::unmatched(vars, mappings).len() == 0,
{
    if env::unmatched(vars, mappings).len() > 0 {
        lemma_added(vars, mappings, 0);
        let j = choose|j: int|
            0 <= j < mappings.len() && #[trigger] mappings[j] == env::unmatched(vars, mappings)[0];
        assert(env::has_var(vars, mappings[j].0));
    }
}

} // verus!

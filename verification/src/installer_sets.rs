//! Which InstallerSets to delete, so that the operator makes them anew.

use vstd::prelude::*;

use crate::error::{Failure, OperatorError};
use crate::text;
use crate::text_laws;

verus! {

/// What the names of a component's InstallerSets begin with.
pub open spec fn name_prefixes(prefix: Seq<char>) -> Seq<Seq<char>> {
    seq![
        prefix + "-main-deployment-"@,
        prefix + "-main-static-"@,
        prefix + "-post-"@,
        prefix + "-pre-"@,
    ]
}

/// `name` begins with one of `prefixes`.
pub open spec fn has_one_of(name: Seq<char>, prefixes: Seq<Seq<char>>) -> bool {
    exists|i: int| 0 <= i < prefixes.len() && text::has_prefix(name, #[trigger] prefixes[i])
}

/// `name` is the name of an InstallerSet of the component with `prefix`.
pub open spec fn belongs(name: Seq<char>, prefix: Seq<char>) -> bool {
    has_one_of(name, name_prefixes(prefix))
}

/// Those of `names` that belong to the component with `prefix`, in their order.
pub open spec fn selected(names: Seq<Option<Seq<char>>>, prefix: Seq<char>) -> Seq<Seq<char>>
    decreases names.len(),
{
    if names.len() == 0 {
        Seq::empty()
    } else {
        match names.last() {
            Some(name) => if belongs(name, prefix) {
                selected(names.drop_last(), prefix).push(name)
            } else {
                selected(names.drop_last(), prefix)
            },
            None => selected(names.drop_last(), prefix),
        }
    }
}

/// The prefix that counts for `component`.
pub open spec fn prefix_of(component: Seq<char>, prefix_override: Option<&str>) -> Seq<char> {
    match prefix_override {
        Some(prefix) => prefix@,
        None => component,
    }
}

/// Models of names that may be missing.
pub open spec fn opt_texts(names: Seq<Option<String>>) -> Seq<Option<Seq<char>>> {
    Seq::new(names.len(), |i: int| text::opt_text(names[i]))
}

/// How many of `outcomes` are good.
pub open spec fn count(outcomes: Seq<bool>) -> nat {
    outcomes.filter(|good: bool| good).len()
}

fn with_end(prefix: &str, end: &str) -> (whole: String)
    ensures
        whole@ == prefix@ + end@,
{
    let mut whole: String = prefix.to_owned();
    whole.append(end);
    whole
}

/// What the names of a component's InstallerSets begin with.
fn installer_set_prefixes(prefix: &str) -> (list: Vec<String>)
    ensures
        text::texts(list@) == name_prefixes(prefix@),
{
    let mut list: Vec<String> = Vec::new();
    list.push(with_end(prefix, "-main-deployment-"));
    list.push(with_end(prefix, "-main-static-"));
    list.push(with_end(prefix, "-post-"));
    list.push(with_end(prefix, "-pre-"));
    assert(text::texts(list@) =~= name_prefixes(prefix@));
    list
}

/// Whether `name` begins with one of `prefixes`.
fn starts_with_one_of(name: &String, prefixes: &Vec<String>) -> (yes: bool)
    ensures
        yes == has_one_of(name@, text::texts(prefixes@)),
{
    let ghost all = text::texts(prefixes@);
    let mut i: usize = 0;
    while i < prefixes.len()
        invariant
            i <= prefixes.len(),
            all == text::texts(prefixes@),
            forall|k: int| 0 <= k < i ==> !text::has_prefix(name@, #[trigger] all[k]),
        decreases prefixes.len() - i,
    {
        assert(all[i as int] == prefixes@[i as int]@);
        if text::starts_with(name.as_str(), prefixes[i].as_str()) {
            return true;
        }
        i = i + 1;
    }
    false
}

/// Delete TektonInstallerSets matching a component to force the operator to
/// re-reconcile: the names of those to delete, by the reply to the request that lists
/// them all.
///
/// The reply holds the name of each InstallerSet, and is nothing where the request
/// failed. An InstallerSet matches by what its name begins with: `prefix_override`, or
/// the component where that is not given, and the part that it installs.
pub fn delete_installer_sets(
    reply: Option<Vec<Option<String>>>,
    component: &str,
    prefix_override: Option<&str>,
) -> (result: Result<Vec<String>, OperatorError>)
    ensures
        match reply {
            Some(names) => result matches Ok(targets) && text::texts(targets@) == selected(
                opt_texts(names@),
                prefix_of(component@, prefix_override),
            ),
            None => result matches Err(error) && error@ is ListInstallerSets,
        },
{
    let names: Vec<Option<String>> = match reply {
        Some(names) => names,
        None => {
            return Err(Failure::ListInstallerSets);
        },
    };
    let prefix: &str = match prefix_override {
        Some(given) => given,
        None => component,
    };
    let prefixes: Vec<String> = installer_set_prefixes(prefix);
    let ghost all = opt_texts(names@);
    let mut targets: Vec<String> = Vec::new();
    let mut i: usize = 0;
    assert(text::texts(targets@) =~= selected(all.take(0), prefix@));
    while i < names.len()
        invariant
            i <= names.len(),
            all == opt_texts(names@),
            text::texts(prefixes@) == name_prefixes(prefix@),
            text::texts(targets@) == selected(all.take(i as int), prefix@),
        decreases names.len() - i,
    {
        let ghost was = text::texts(targets@);
        assert(all.take(i + 1).drop_last() =~= all.take(i as int));
        assert(all.take(i + 1).last() == text::opt_text(names@[i as int]));
        match &names[i] {
            Some(name) => {
                if starts_with_one_of(name, &prefixes) {
                    targets.push(name.clone());
                    assert(text::texts(targets@) =~= was.push(name@));
                }
            },
            None => {},
        }
        i = i + 1;
    }
    assert(all.take(i as int) =~= all);
    Ok(targets)
}

/// How many InstallerSets were deleted, by the outcome of each deletion. A deletion
/// that failed is left out.
pub fn count_deleted(outcomes: &Vec<bool>) -> (deleted: u32)
    requires
        count(outcomes@) <= u32::MAX,
    ensures
        deleted == count(outcomes@),
{
    let mut deleted: u32 = 0;
    let mut i: usize = 0;
    assert(outcomes@.take(0).filter(|good: bool| good) =~= Seq::empty()) by {
        reveal(Seq::filter);
    }
    while i < outcomes.len()
        invariant
            i <= outcomes.len(),
            deleted == count(outcomes@.take(i as int)),
            count(outcomes@) <= u32::MAX,
        decreases outcomes.len() - i,
    {
        proof {
            lemma_count_next(outcomes@, i as int);
            lemma_count_grows(outcomes@, i + 1);
        }
        if outcomes[i] {
            deleted = deleted + 1;
        }
        i = i + 1;
    }
    assert(outcomes@.take(i as int) =~= outcomes@);
    deleted
}

/// One more outcome.
proof fn lemma_count_next(outcomes: Seq<bool>, i: int)
    requires
        0 <= i < outcomes.len(),
    ensures
        count(outcomes.take(i + 1)) == count(outcomes.take(i)) + if outcomes[i] {
            1int
        } else {
            0
        },
{
    reveal(Seq::filter);
    assert(outcomes.take(i + 1).drop_last() =~= outcomes.take(i));
}

/// A part of the outcomes has no more good ones than all.
proof fn lemma_count_grows(outcomes: Seq<bool>, i: int)
    requires
        0 <= i <= outcomes.len(),
    ensures
        count(outcomes.take(i)) <= count(outcomes),
    decreases outcomes.len() - i,
{
    if i < outcomes.len() {
        lemma_count_next(outcomes, i);
        lemma_count_grows(outcomes, i + 1);
    } else {
        assert(outcomes.take(i) =~= outcomes);
    }
}

/// An InstallerSet is deleted exactly where it is there and belongs to the component:
/// none of another component's, and all of this one's.
pub proof fn law_exactly_the_components_sets_are_deleted(
    names: Seq<Option<Seq<char>>>,
    prefix: Seq<char>,
    name: Seq<char>,
)
    ensures
        selected(names, prefix).contains(name) <==> names.contains(Some(name)) && belongs(
            name,
            prefix,
        ),
    decreases names.len(),
{
    if names.len() > 0 {
        let shorter = names.drop_last();
        let before = selected(shorter, prefix);
        let all = selected(names, prefix);
        law_exactly_the_components_sets_are_deleted(shorter, prefix, name);
        if names.contains(Some(name)) && !shorter.contains(Some(name)) {
            let i = choose|i: int| 0 <= i < names.len() && names[i] == Some(name);
            if i < shorter.len() {
                assert(shorter[i] == Some(name));
            }
            assert(names.last() == Some(name));
            if belongs(name, prefix) {
                assert(all.last() == name);
            }
        }
        if shorter.contains(Some(name)) {
            let i = choose|i: int| 0 <= i < shorter.len() && shorter[i] == Some(name);
            assert(names[i] == Some(name));
        }
        if before.contains(name) {
            let i = choose|i: int| 0 <= i < before.len() && before[i] == name;
            assert(all[i] == name);
        }
        if all.contains(name) && !before.contains(name) {
            let i = choose|i: int| 0 <= i < all.len() && all[i] == name;
            if i < before.len() {
                assert(before[i] == name);
            }
            assert(names[names.len() - 1] == Some(name));
        }
    }
}

/// A given prefix takes the place of the component: the component's own name does not
/// count then, and giving the component's name as the prefix changes nothing.
pub proof fn law_override_takes_the_place_of_the_component(
    component: Seq<char>,
    other: Seq<char>,
    given: &str,
)
    ensures
        prefix_of(component, Some(given)) == prefix_of(other, Some(given)),
        component == given@ ==> prefix_of(component, Some(given)) == prefix_of(component, None),
{
}

/// No more InstallerSets are deleted than were tried.
pub proof fn law_no_more_deleted_than_tried(outcomes: Seq<bool>)
    ensures
        count(outcomes) <= outcomes.len(),
    decreases outcomes.len(),
{
    reveal(Seq::filter);
    if outcomes.len() > 0 {
        law_no_more_deleted_than_tried(outcomes.drop_last());
    }
}

/// An InstallerSet belongs to a component exactly where its name is the prefix, one of
/// the four parts, and something behind it.
pub proof fn law_names_of_a_component(name: Seq<char>, prefix: Seq<char>)
    ensures
        belongs(name, prefix) <==> {
            ||| exists|rest: Seq<char>| name == #[trigger] (prefix + "-main-deployment-"@ + rest)
            ||| exists|rest: Seq<char>| name == #[trigger] (prefix + "-main-static-"@ + rest)
            ||| exists|rest: Seq<char>| name == #[trigger] (prefix + "-post-"@ + rest)
            ||| exists|rest: Seq<char>| name == #[trigger] (prefix + "-pre-"@ + rest)
        },
{
    let all = name_prefixes(prefix);
    text_laws::law_prefix_is_what_comes_first(name, prefix + "-main-deployment-"@);
    text_laws::law_prefix_is_what_comes_first(name, prefix + "-main-static-"@);
    text_laws::law_prefix_is_what_comes_first(name, prefix + "-post-"@);
    text_laws::law_prefix_is_what_comes_first(name, prefix + "-pre-"@);
    assert(all[0] == prefix + "-main-deployment-"@);
    assert(all[1] == prefix + "-main-static-"@);
    assert(all[2] == prefix + "-post-"@);
    assert(all[3] == prefix + "-pre-"@);
}

/// What is selected of two lists is what is selected of the one and then of the other; an
/// InstallerSet alone is selected where it has a name that belongs.
pub proof fn law_each_set_is_selected_by_itself(
    a: Seq<Option<Seq<char>>>,
    b: Seq<Option<Seq<char>>>,
    name: Seq<char>,
    prefix: Seq<char>,
)
    ensures
        selected(a + b, prefix) == selected(a, prefix) + selected(b, prefix),
        selected(Seq::empty(), prefix) == Seq::<Seq<char>>::empty(),
        selected(seq![None], prefix) == Seq::<Seq<char>>::empty(),
        selected(seq![Some(name)], prefix) == if belongs(name, prefix) {
            seq![name]
        } else {
            Seq::empty()
        },
    decreases b.len(),
{
    let none: Seq<Option<Seq<char>>> = seq![None];
    let one = seq![Some(name)];
    assert(none.drop_last() =~= Seq::empty());
    assert(one.drop_last() =~= Seq::empty());
    assert(selected(Seq::empty(), prefix) =~= Seq::empty());
    assert(selected(none, prefix) =~= Seq::empty());
    if belongs(name, prefix) {
        assert(selected(one, prefix) =~= seq![name]);
    } else {
        assert(selected(one, prefix) =~= Seq::empty());
    }
    if b.len() == 0 {
        assert(a + b =~= a);
        assert(selected(a, prefix) + selected(b, prefix) =~= selected(a, prefix));
    } else {
        law_each_set_is_selected_by_itself(a, b.drop_last(), name, prefix);
        assert((a + b).drop_last() =~= a + b.drop_last());
        assert(selected(a + b, prefix) =~= selected(a, prefix) + selected(b, prefix));
    }
}

/// The prefix is the given one, and the component where none is given.
pub proof fn law_prefix_is_given_or_the_component(component: Seq<char>, given: &str)
    ensures
        prefix_of(component, Some(given)) == given@,
        prefix_of(component, None) == component,
{
}

/// Good outcomes are counted one by one, and no others.
pub proof fn law_count_adds_up(a: Seq<bool>, b: Seq<bool>)
    ensures
        count(a + b) == count(a) + count(b),
        count(Seq::empty()) == 0,
        count(seq![true]) == 1,
        count(seq![false]) == 0,
    decreases b.len(),
{
    reveal(Seq::filter);
    assert(seq![true].drop_last() =~= Seq::empty());
    assert(seq![false].drop_last() =~= Seq::empty());
    assert(count(seq![true].drop_last()) == 0);
    assert(count(seq![false].drop_last()) == 0);
    if b.len() == 0 {
        assert(a + b =~= a);
    } else {
        law_count_adds_up(a, b.drop_last());
        assert((a + b).drop_last() =~= a + b.drop_last());
    }
}

/// The models of names have every name, in its place.
pub proof fn law_names_are_kept(names: Seq<Option<String>>)
    ensures
        opt_texts(names).len() == names.len(),
        forall|i: int|
            0 <= i < names.len() ==> match #[trigger] names[i] {
                Some(name) => opt_texts(names)[i] == Some(name@),
                None => opt_texts(names)[i] is None,
            },
{
}

} // verus!

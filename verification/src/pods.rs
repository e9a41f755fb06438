//! Which pods are ready, and which of them are new.

use vstd::prelude::*;

use crate::model;
use crate::model::{Pod, PodCondition};
use crate::text;

verus! {

/// `condition` says that a pod is ready.
pub open spec fn says_ready(condition: model::PodConditionView) -> bool {
    condition.type_ == "Ready"@ && condition.status == "True"@
}

/// One of the conditions says that a pod is ready.
pub open spec fn any_ready(list: Seq<model::PodConditionView>) -> bool {
    exists|i: int| 0 <= i < list.len() && says_ready(#[trigger] list[i])
}

/// `pod` runs, and one of its conditions says that it is ready.
pub open spec fn ready(pod: model::PodView) -> bool {
    match pod.status {
        Some(status) => {
            &&& status.phase == Some("Running"@)
            &&& match status.conditions {
                Some(list) => any_ready(list),
                None => false,
            }
        },
        None => false,
    }
}

/// The names of the `pods` that have one, in their order.
pub open spec fn names(pods: Seq<model::PodView>) -> Seq<Seq<char>>
    decreases pods.len(),
{
    if pods.len() == 0 {
        Seq::empty()
    } else {
        match pods.last().name {
            Some(name) => names(pods.drop_last()).push(name),
            None => names(pods.drop_last()),
        }
    }
}

/// `pod` is ready, and its name is none of `old`.
pub open spec fn is_replacement(pod: model::PodView, old: Seq<Seq<char>>) -> bool {
    match pod.name {
        Some(name) => !old.contains(name) && ready(pod),
        None => false,
    }
}

/// The name of the first of `pods` that is ready and whose name is none of `old`.
pub open spec fn replacement(pods: Seq<model::PodView>, old: Seq<Seq<char>>) -> Option<Seq<char>>
    decreases pods.len(),
{
    if pods.len() == 0 {
        None
    } else if is_replacement(pods[0], old) {
        pods[0].name
    } else {
        replacement(pods.skip(1), old)
    }
}

/// Whether one of the conditions says that a pod is ready.
fn any_says_ready(list: &Vec<PodCondition>) -> (yes: bool)
    ensures
        yes == any_ready(model::conditions(list@)),
{
    let ghost all = model::conditions(list@);
    let mut i: usize = 0;
    while i < list.len()
        invariant
            i <= list.len(),
            all == model::conditions(list@),
            forall|k: int| 0 <= k < i ==> !says_ready(#[trigger] all[k]),
        decreases list.len() - i,
    {
        assert(all[i as int] == list@[i as int]@);
        if text::same_text(list[i].type_.as_str(), "Ready") && text::same_text(
            list[i].status.as_str(),
            "True",
        ) {
            assert(says_ready(all[i as int]));
            return true;
        }
        i = i + 1;
    }
    false
}

/// Check if a Pod is Running and has the Ready condition set to True.
pub fn is_pod_ready(pod: &Pod) -> (yes: bool)
    ensures
        yes == ready(pod@),
{
    match &pod.status {
        None => false,
        Some(status) => {
            let running: bool = match &status.phase {
                Some(phase) => text::same_text(phase.as_str(), "Running"),
                None => false,
            };
            if !running {
                return false;
            }
            match &status.conditions {
                None => false,
                Some(list) => any_says_ready(list),
            }
        },
    }
}

/// The names of the `pods` that have one, in their order.
pub fn pod_names(pods: &Vec<Pod>) -> (list: Vec<String>)
    ensures
        text::texts(list@) == names(model::pods(pods@)),
{
    let ghost all = model::pods(pods@);
    let mut list: Vec<String> = Vec::new();
    let mut i: usize = 0;
    assert(text::texts(list@) =~= names(all.take(0)));
    while i < pods.len()
        invariant
            i <= pods.len(),
            all == model::pods(pods@),
            text::texts(list@) == names(all.take(i as int)),
        decreases pods.len() - i,
    {
        let ghost was = text::texts(list@);
        assert(all.take(i + 1).drop_last() =~= all.take(i as int));
        assert(all.take(i + 1).last() == pods@[i as int]@);
        match &pods[i].name {
            Some(name) => {
                list.push(name.clone());
                assert(text::texts(list@) =~= was.push(name@));
            },
            None => {},
        }
        i = i + 1;
    }
    assert(all.take(i as int) =~= all);
    list
}

/// Whether `name` is one of `list`.
fn is_listed(list: &Vec<String>, name: &String) -> (yes: bool)
    ensures
        yes == text::texts(list@).contains(name@),
{
    let ghost all = text::texts(list@);
    let mut i: usize = 0;
    while i < list.len()
        invariant
            i <= list.len(),
            all == text::texts(list@),
            forall|k: int| 0 <= k < i ==> #[trigger] all[k] != name@,
        decreases list.len() - i,
    {
        assert(all[i as int] == list@[i as int]@);
        if list[i] == *name {
            return true;
        }
        i = i + 1;
    }
    false
}

/// The name of the first of `pods` that is ready and whose name is none of `old`.
pub fn find_replacement(pods: &Vec<Pod>, old: &Vec<String>) -> (name: Option<String>)
    ensures
        text::opt_text(name) == replacement(model::pods(pods@), text::texts(old@)),
{
    let ghost all = model::pods(pods@);
    let ghost gone = text::texts(old@);
    let mut i: usize = 0;
    assert(all.skip(0) =~= all);
    while i < pods.len()
        invariant
            i <= pods.len(),
            all == model::pods(pods@),
            gone == text::texts(old@),
            replacement(all, gone) == replacement(all.skip(i as int), gone),
        decreases pods.len() - i,
    {
        assert(all.skip(i as int)[0] == pods@[i as int]@);
        assert(all.skip(i as int).skip(1) =~= all.skip(i + 1));
        match &pods[i].name {
            Some(name) => {
                if !is_listed(old, name) && is_pod_ready(&pods[i]) {
                    return Some(name.clone());
                }
            },
            None => {},
        }
        i = i + 1;
    }
    None
}

/// A replacement is found exactly where one of the pods is one, and it is the name of
/// such a pod: ready, and not an old one.
pub proof fn law_replacement_is_new_and_ready(pods: Seq<model::PodView>, old: Seq<Seq<char>>)
    ensures
        replacement(pods, old) is Some <==> exists|i: int|
            0 <= i < pods.len() && is_replacement(#[trigger] pods[i], old),
        replacement(pods, old) matches Some(name) ==> !old.contains(name) && exists|i: int|
            0 <= i < pods.len() && (#[trigger] pods[i]).name == Some(name) && ready(pods[i]),
    decreases pods.len(),
{
    if pods.len() > 0 {
        if is_replacement(pods[0], old) {
            assert(pods[0].name == replacement(pods, old));
        } else {
            let tail = pods.skip(1);
            law_replacement_is_new_and_ready(tail, old);
            if exists|i: int| 0 <= i < pods.len() && is_replacement(#[trigger] pods[i], old) {
                let i = choose|i: int|
                    0 <= i < pods.len() && is_replacement(#[trigger] pods[i], old);
                assert(tail[i - 1] == pods[i]);
            }
            if replacement(tail, old) is Some {
                let i = choose|i: int|
                    0 <= i < tail.len() && is_replacement(#[trigger] tail[i], old);
                assert(pods[i + 1] == tail[i]);
                let name = replacement(tail, old)->0;
                let k = choose|k: int|
                    0 <= k < tail.len() && (#[trigger] tail[k]).name == Some(name) && ready(
                        tail[k],
                    );
                assert(pods[k + 1] == tail[k]);
            }
        }
    }
}

/// A pod whose name was listed is no replacement among the same pods.
pub proof fn law_listed_pods_do_not_replace_themselves(pods: Seq<model::PodView>)
    ensures
        replacement(pods, names(pods)) is None,
{
    law_replacement_is_new_and_ready(pods, names(pods));
    assert forall|i: int| 0 <= i < pods.len() implies !is_replacement(
        #[trigger] pods[i],
        names(pods),
    ) by {
        if pods[i].name is Some {
            lemma_name_is_listed(pods, i);
        }
    }
}

proof fn lemma_name_is_listed(pods: Seq<model::PodView>, i: int)
    requires
        0 <= i < pods.len(),
        pods[i].name is Some,
    ensures
        names(pods).contains(pods[i].name->0),
    decreases pods.len(),
{
    let shorter = pods.drop_last();
    if i < shorter.len() {
        lemma_name_is_listed(shorter, i);
        let name = pods[i].name->0;
        assert(shorter[i] == pods[i]);
        let k = choose|k: int| 0 <= k < names(shorter).len() && names(shorter)[k] == name;
        assert(names(pods)[k] == name);
    } else {
        assert(names(pods).last() == pods[i].name->0);
    }
}

/// A pod is ready exactly where it reports the phase "Running" and a condition of the
/// type "Ready" with the status "True".
pub proof fn law_ready_means_running_and_ready(pod: model::PodView)
    ensures
        ready(pod) <==> pod.status is Some && pod.status->0.phase == Some("Running"@)
            && pod.status->0.conditions is Some && exists|i: int|
            0 <= i < pod.status->0.conditions->0.len() && (
            #[trigger] pod.status->0.conditions->0[i]).type_ == "Ready"@
                && pod.status->0.conditions->0[i].status == "True"@,
{
    if pod.status is Some && pod.status->0.conditions is Some {
        let list = pod.status->0.conditions->0;
        if any_ready(list) {
            let i = choose|i: int| 0 <= i < list.len() && says_ready(#[trigger] list[i]);
            assert(list[i].type_ == "Ready"@);
        }
        if exists|i: int|
            0 <= i < list.len() && (#[trigger] list[i]).type_ == "Ready"@ && list[i].status
                == "True"@ {
            let i = choose|i: int|
                0 <= i < list.len() && (#[trigger] list[i]).type_ == "Ready"@ && list[i].status
                    == "True"@;
            assert(says_ready(list[i]));
        }
    }
}

/// The names of two lists of pods are those of the one and then those of the other; a pod
/// with a name has it, and a pod without one has none.
pub proof fn law_names_are_those_of_the_pods(
    a: Seq<model::PodView>,
    b: Seq<model::PodView>,
    pod: model::PodView,
)
    ensures
        names(a + b) == names(a) + names(b),
        names(Seq::empty()) == Seq::<Seq<char>>::empty(),
        pod.name is None ==> names(seq![pod]) == Seq::<Seq<char>>::empty(),
        pod.name is Some ==> names(seq![pod]) == seq![pod.name->0],
    decreases b.len(),
{
    assert(seq![pod].drop_last() =~= Seq::empty());
    assert(names(seq![pod].drop_last()) =~= Seq::empty());
    if pod.name is Some {
        assert(names(seq![pod]) =~= seq![pod.name->0]);
    }
    if b.len() == 0 {
        assert(a + b =~= a);
        assert(names(a) + names(b) =~= names(a));
    } else {
        law_names_are_those_of_the_pods(a, b.drop_last(), pod);
        assert((a + b).drop_last() =~= a + b.drop_last());
        assert(names(a + b) =~= names(a) + names(b));
    }
}

/// The replacement is the first pod that has a name, that is none of the old ones, and
/// that is ready; where there is no such pod there is none.
pub proof fn law_first_new_ready_pod_replaces(
    pods: Seq<model::PodView>,
    old: Seq<Seq<char>>,
    i: int,
)
    requires
        0 <= i <= pods.len(),
        forall|k: int|
            0 <= k < i ==> (#[trigger] pods[k]).name is None || old.contains(pods[k].name->0)
                || !ready(pods[k]),
        i < pods.len() ==> pods[i].name is Some && !old.contains(pods[i].name->0) && ready(pods[i]),
    ensures
        i < pods.len() ==> replacement(pods, old) == pods[i].name,
        i == pods.len() ==> replacement(pods, old) is None,
    decreases pods.len(),
{
    if pods.len() > 0 && i > 0 {
        let rest = pods.skip(1);
        assert(pods[0].name is None || old.contains(pods[0].name->0) || !ready(pods[0]));
        assert forall|k: int| 0 <= k < i - 1 implies (#[trigger] rest[k]).name is None
            || old.contains(rest[k].name->0) || !ready(rest[k]) by {
            assert(rest[k] == pods[k + 1]);
        }
        if i < pods.len() {
            assert(rest[i - 1] == pods[i]);
        }
        law_first_new_ready_pod_replaces(rest, old, i - 1);
    }
}

} // verus!

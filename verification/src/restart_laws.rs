//! What a restart promises as a whole.

use vstd::prelude::*;

use crate::error::Failure;
use crate::labels;
use crate::model;
use crate::model::{Deployment, Pod};
use crate::pods;
use crate::restart;
use crate::restart::{
    RestartAction, RestartActionView, RestartEvent, RestartEventView, RestartView,
};

verus! {

/// The state after all of `events`, in their order.
pub open spec fn after_all(state: RestartView, events: Seq<RestartEventView>) -> RestartView
    decreases events.len(),
{
    if events.len() == 0 {
        state
    } else {
        restart::after_event(after_all(state, events.drop_last()), events.last())
    }
}

/// The event at `i` brought the Deployment while a restart that began as `start` was
/// reading it, with the labels `map`.
pub open spec fn read_at(
    start: RestartView,
    events: Seq<RestartEventView>,
    i: int,
    map: Map<Seq<char>, Seq<char>>,
) -> bool {
    &&& 0 <= i < events.len()
    &&& after_all(start, events.take(i)) is Fetching
    &&& events[i] == (RestartEventView::Fetched { labels: Some(Some(map)) })
}

/// The event at `i` brought `list` while a restart that began as `start` was listing the
/// pods to restart.
pub open spec fn listed_at(
    start: RestartView,
    events: Seq<RestartEventView>,
    i: int,
    list: Seq<model::PodView>,
) -> bool {
    &&& 0 <= i < events.len()
    &&& after_all(start, events.take(i)) is Listing
    &&& events[i] == (RestartEventView::Listed { pods: Some(list) })
}

/// The event at `i` brought `list` while a restart that began as `start` was looking for
/// a new pod.
pub open spec fn seen_at(
    start: RestartView,
    events: Seq<RestartEventView>,
    i: int,
    list: Seq<model::PodView>,
) -> bool {
    &&& 0 <= i < events.len()
    &&& after_all(start, events.take(i)) is Polling
    &&& events[i] == (RestartEventView::Listed { pods: Some(list) })
}

/// `selector` asks for the labels of the Deployment that was read.
pub open spec fn selects(
    start: RestartView,
    events: Seq<RestartEventView>,
    selector: Seq<char>,
) -> bool {
    exists|i: int, map: Map<Seq<char>, Seq<char>>| #[trigger]
        read_at(start, events, i, map) && selector == labels::selector_for(map)
}

/// `old` are the names of the pods that the restart found at first.
pub open spec fn found(
    start: RestartView,
    events: Seq<RestartEventView>,
    old: Seq<Seq<char>>,
) -> bool {
    exists|i: int, list: Seq<model::PodView>| #[trigger]
        listed_at(start, events, i, list) && pods::names(list) == old
}

/// `name` is a pod that a listing shows to be ready, that came after the one that the
/// restart found its pods in, and `name` is not in that first one.
pub open spec fn replaced(
    start: RestartView,
    events: Seq<RestartEventView>,
    name: Seq<char>,
) -> bool {
    exists|i: int, first: Seq<model::PodView>, j: int, later: Seq<model::PodView>|
        i < j && #[trigger] listed_at(start, events, i, first) && #[trigger] seen_at(
            start,
            events,
            j,
            later,
        ) && pods::names(first).len() > 0 && pods::replacement(later, pods::names(first)) == Some(
            name,
        )
}

/// The state of a restart in `namespace`, which began as `start`, follows from what
/// answered its own actions among `events`.
pub open spec fn sound(
    start: RestartView,
    events: Seq<RestartEventView>,
    namespace: Seq<char>,
) -> bool {
    match after_all(start, events) {
        RestartView::Fetching { .. } => after_all(start, events) == start,
        RestartView::Listing { namespace: ns, selector } => ns == namespace && selects(
            start,
            events,
            selector,
        ),
        RestartView::Deleting { namespace: ns, selector, old, next } => ns == namespace && selects(
            start,
            events,
            selector,
        ) && found(start, events, old) && 0 <= next < old.len(),
        RestartView::Timing { namespace: ns, selector, old } => ns == namespace && selects(
            start,
            events,
            selector,
        ) && found(start, events, old) && old.len() > 0,
        RestartView::Pausing { namespace: ns, selector, old } => ns == namespace && selects(
            start,
            events,
            selector,
        ) && found(start, events, old) && old.len() > 0,
        RestartView::Polling { namespace: ns, selector, old } => ns == namespace && selects(
            start,
            events,
            selector,
        ) && found(start, events, old) && old.len() > 0,
        RestartView::Restarted { pod: None } => found(start, events, Seq::empty()),
        RestartView::Restarted { pod: Some(name) } => replaced(start, events, name),
        RestartView::Failed { .. } => true,
    }
}

/// What answered an action still did when one more event has come.
proof fn lemma_one_more(start: RestartView, events: Seq<RestartEventView>)
    requires
        events.len() > 0,
    ensures
        forall|selector: Seq<char>|
            selects(start, events.drop_last(), selector) ==> #[trigger] selects(
                start,
                events,
                selector,
            ),
        forall|old: Seq<Seq<char>>|
            found(start, events.drop_last(), old) ==> #[trigger] found(start, events, old),
        forall|name: Seq<char>|
            replaced(start, events.drop_last(), name) ==> #[trigger] replaced(
                start,
                events,
                name,
            ),
{
    let fewer = events.drop_last();
    assert forall|i: int| 0 <= i < fewer.len() implies events[i] == #[trigger] fewer[i]
        && events.take(i) == fewer.take(i) by {
        assert(events.take(i) =~= fewer.take(i));
    }
    assert forall|selector: Seq<char>| selects(start, fewer, selector) implies #[trigger] selects(
        start,
        events,
        selector,
    ) by {
        let (i, map) = choose|i: int, map: Map<Seq<char>, Seq<char>>| #[trigger]
            read_at(start, fewer, i, map) && selector == labels::selector_for(map);
        assert(fewer[i] == events[i]);
        assert(read_at(start, events, i, map));
    }
    assert forall|old: Seq<Seq<char>>| found(start, fewer, old) implies #[trigger] found(
        start,
        events,
        old,
    ) by {
        let (i, list) = choose|i: int, list: Seq<model::PodView>| #[trigger]
            listed_at(start, fewer, i, list) && pods::names(list) == old;
        assert(fewer[i] == events[i]);
        assert(listed_at(start, events, i, list));
    }
    assert forall|name: Seq<char>| replaced(start, fewer, name) implies #[trigger] replaced(
        start,
        events,
        name,
    ) by {
        let (i, first, j, later) = choose|
            i: int,
            first: Seq<model::PodView>,
            j: int,
            later: Seq<model::PodView>,
        |
            i < j && #[trigger] listed_at(start, fewer, i, first) && #[trigger] seen_at(
                start,
                fewer,
                j,
                later,
            ) && pods::names(first).len() > 0 && pods::replacement(later, pods::names(first))
                == Some(name);
        assert(fewer[i] == events[i]);
        assert(fewer[j] == events[j]);
        assert(listed_at(start, events, i, first));
        assert(seen_at(start, events, j, later));
    }
}

/// Whatever happens, a restart acts on the answers to its own actions: it lists pods by
/// the labels of the Deployment that it read, it deletes only pods of the listing that it
/// then asked for, and it ends well only where that listing was empty or where a later
/// one shows a ready pod whose name was not in it.
pub proof fn law_restart_is_sound(
    namespace: Seq<char>,
    name: Seq<char>,
    events: Seq<RestartEventView>,
)
    ensures
        sound(RestartView::Fetching { namespace, name }, events, namespace),
    decreases events.len(),
{
    let start = RestartView::Fetching { namespace, name };
    if events.len() > 0 {
        let fewer = events.drop_last();
        let last = events.len() - 1;
        law_restart_is_sound(namespace, name, fewer);
        lemma_one_more(start, events);
        assert(events.take(last) =~= fewer);
        let before = after_all(start, fewer);
        match (before, events.last()) {
            (
                RestartView::Fetching { .. },
                RestartEventView::Fetched { labels: Some(Some(map)) },
            ) => {
                assert(read_at(start, events, last, map));
            },
            (
                RestartView::Listing { selector, .. },
                RestartEventView::Listed { pods: Some(list) },
            ) => {
                assert(listed_at(start, events, last, list));
                assert(found(start, events, pods::names(list)));
                assert(selects(start, events, selector));
                if pods::names(list).len() == 0 {
                    assert(pods::names(list) =~= Seq::empty());
                }
            },
            (
                RestartView::Polling { selector, old, .. },
                RestartEventView::Listed { pods: Some(list) },
            ) => {
                let (i, first) = choose|i: int, first: Seq<model::PodView>| #[trigger]
                    listed_at(start, fewer, i, first) && pods::names(first) == old;
                assert(events.take(i) =~= fewer.take(i));
                assert(listed_at(start, events, i, first));
                assert(seen_at(start, events, last, list));
                assert(found(start, events, old));
                assert(selects(start, events, selector));
            },
            _ => {},
        }
        match before {
            RestartView::Listing { selector, .. } => assert(selects(start, events, selector)),
            RestartView::Deleting { selector, old, .. } => assert(selects(start, events, selector)
                && found(start, events, old)),
            RestartView::Timing { selector, old, .. } => assert(selects(start, events, selector)
                && found(start, events, old)),
            RestartView::Pausing { selector, old, .. } => assert(selects(start, events, selector)
                && found(start, events, old)),
            RestartView::Polling { selector, old, .. } => assert(selects(start, events, selector)
                && found(start, events, old)),
            RestartView::Restarted { pod: None } => assert(found(start, events, Seq::empty())),
            RestartView::Restarted { pod: Some(new) } => assert(replaced(start, events, new)),
            _ => {},
        }
    }
}

/// Every request of a restart is made in its namespace. The only Deployment that it reads
/// is its own, every listing of pods asks for the labels of that Deployment, and the only
/// pods that it deletes are those that it found at first.
pub proof fn law_requests_stay_in_the_namespace(
    namespace: Seq<char>,
    name: Seq<char>,
    events: Seq<RestartEventView>,
)
    ensures
        ({
            let start = RestartView::Fetching { namespace, name };
            match restart::action_in(after_all(start, events)) {
                RestartActionView::FetchDeployment { namespace: ns, name: deployment } => ns
                    == namespace && deployment == name,
                RestartActionView::ListPods { namespace: ns, selector } => ns == namespace
                    && selects(start, events, selector),
                RestartActionView::DeletePod { namespace: ns, name: pod } => ns == namespace
                    && exists|old: Seq<Seq<char>>| #[trigger]
                    found(start, events, old) && old.contains(pod),
                _ => true,
            }
        }),
{
    law_restart_is_sound(namespace, name, events);
    let start = RestartView::Fetching { namespace, name };
    match after_all(start, events) {
        RestartView::Deleting { old, next, .. } => {
            assert(found(start, events, old));
            assert(old.contains(old[next]));
        },
        _ => {},
    }
}

/// Once a restart has found its pods it never lists the pods to restart again.
proof fn lemma_past_listing(
    start: RestartView,
    events: Seq<RestartEventView>,
    i: int,
    list: Seq<model::PodView>,
)
    requires
        listed_at(start, events, i, list),
    ensures
        after_all(start, events) !is Fetching,
        after_all(start, events) !is Listing,
    decreases events.len(),
{
    let fewer = events.drop_last();
    if i < fewer.len() {
        assert(events.take(i) =~= fewer.take(i));
        lemma_past_listing(start, fewer, i, list);
    } else {
        assert(events.take(i) =~= fewer);
    }
}

/// The pods to restart are found in one listing: a pod that first shows later is none of
/// them.
pub proof fn law_pods_are_found_once(
    start: RestartView,
    events: Seq<RestartEventView>,
    a: Seq<Seq<char>>,
    b: Seq<Seq<char>>,
)
    requires
        found(start, events, a),
        found(start, events, b),
    ensures
        a == b,
{
    let (i, first) = choose|i: int, list: Seq<model::PodView>| #[trigger]
        listed_at(start, events, i, list) && pods::names(list) == a;
    let (j, second) = choose|j: int, list: Seq<model::PodView>| #[trigger]
        listed_at(start, events, j, list) && pods::names(list) == b;
    if i < j {
        assert(events.take(j).take(i) =~= events.take(i));
        lemma_past_listing(start, events.take(j), i, first);
    }
    if j < i {
        assert(events.take(i).take(j) =~= events.take(j));
        lemma_past_listing(start, events.take(i), j, second);
    }
}

/// A restart that waits ends well exactly by a listing with a pod that is ready and is
/// none of the old ones, and names such a pod.
pub proof fn law_restart_ends_with_a_new_ready_pod(state: RestartView, event: RestartEventView)
    requires
        state !is Restarted,
        restart::after_event(state, event) matches RestartView::Restarted { pod: Some(_) },
    ensures
        state is Polling,
        event matches RestartEventView::Listed { pods: Some(list) } && {
            let name = restart::after_event(state, event)->pod->0;
            !state->Polling_old.contains(name) && exists|i: int|
                0 <= i < list.len() && (#[trigger] list[i]).name == Some(name) && pods::ready(
                    list[i],
                )
        },
{
    if event is Listed && state is Polling {
        pods::law_replacement_is_new_and_ready(event->pods->0, state->Polling_old);
    }
}

/// The old pods are deleted one after the other, each once, in the order in which they
/// were listed, and no failed deletion stops that.
pub proof fn law_each_old_pod_is_deleted_once(
    namespace: Seq<char>,
    selector: Seq<char>,
    old: Seq<Seq<char>>,
    done: nat,
)
    requires
        done <= old.len(),
        old.len() > 0,
    ensures
        after_all(
            RestartView::Deleting { namespace, selector, old, next: 0 },
            Seq::new(done, |i: int| RestartEventView::Deleted),
        ) == if done < old.len() {
            RestartView::Deleting { namespace, selector, old, next: done as int }
        } else {
            RestartView::Timing { namespace, selector, old }
        },
        done < old.len() ==> restart::action_in(
            RestartView::Deleting { namespace, selector, old, next: done as int },
        ) == (RestartActionView::DeletePod { namespace, name: old[done as int] }),
    decreases done,
{
    let events = Seq::new(done, |i: int| RestartEventView::Deleted);
    if done > 0 {
        let fewer = (done - 1) as nat;
        law_each_old_pod_is_deleted_once(namespace, selector, old, fewer);
        assert(events.drop_last() =~= Seq::new(fewer, |i: int| RestartEventView::Deleted));
    }
}

/// A look at the pods that fails, or that shows no new ready pod, leads to another
/// look, as long as there is time; when it is up the restart fails.
pub proof fn law_waiting_goes_on_until_time_is_up(
    namespace: Seq<char>,
    selector: Seq<char>,
    old: Seq<Seq<char>>,
    nanos: int,
    reply: Option<Seq<model::PodView>>,
)
    requires
        reply matches Some(list) ==> pods::replacement(list, old) is None,
    ensures
        nanos <= restart::TIMEOUT_NANOS ==> after_all(
            RestartView::Timing { namespace, selector, old },
            seq![
                RestartEventView::Elapsed { nanos },
                RestartEventView::Paused,
                RestartEventView::Listed { pods: reply },
            ],
        ) == (RestartView::Timing { namespace, selector, old }),
        nanos > restart::TIMEOUT_NANOS ==> restart::after_event(
            RestartView::Timing { namespace, selector, old },
            RestartEventView::Elapsed { nanos },
        ) == (RestartView::Failed { error: Failure::RestartTimeout }),
{
    let start = RestartView::Timing { namespace, selector, old };
    let events = seq![
        RestartEventView::Elapsed { nanos },
        RestartEventView::Paused,
        RestartEventView::Listed { pods: reply },
    ];
    let two = events.drop_last();
    let one = two.drop_last();
    assert(one.drop_last() =~= Seq::empty());
    assert(after_all(start, one.drop_last()) == start);
    assert(after_all(start, one) == restart::after_event(start, RestartEventView::Elapsed { nanos }));
    assert(after_all(start, two) == restart::after_event(after_all(start, one), RestartEventView::Paused));
}

/// Once a restart has ended nothing changes it, and no action is pending; before that
/// one is.
pub proof fn law_an_end_is_final(state: RestartView, event: RestartEventView)
    ensures
        restart::action_in(state) is Stop ==> restart::after_event(state, event) == state,
        restart::action_in(state) is Stop <==> (state is Restarted || state is Failed),
{
}

/// The Deployment that was read gives the labels to list pods by. Without the Deployment,
/// or without labels, the restart fails, and each of the two is told.
pub proof fn law_labels_decide_what_is_listed(
    namespace: Seq<char>,
    name: Seq<char>,
    map: Map<Seq<char>, Seq<char>>,
)
    ensures
        restart::after_event(
            RestartView::Fetching { namespace, name },
            RestartEventView::Fetched { labels: Some(Some(map)) },
        ) == (RestartView::Listing { namespace, selector: labels::selector_for(map) }),
        restart::after_event(
            RestartView::Fetching { namespace, name },
            RestartEventView::Fetched { labels: Some(None) },
        ) == (RestartView::Failed { error: Failure::NoMatchLabels }),
        restart::after_event(
            RestartView::Fetching { namespace, name },
            RestartEventView::Fetched { labels: None },
        ) == (RestartView::Failed { error: Failure::GetDeployment { namespace, name } }),
{
}

/// The pods to restart are all the pods of the first listing that have a name, from the
/// first on; a listing with none of them ends the restart well, and a failed one ends it
/// as failed.
pub proof fn law_all_listed_pods_are_restarted(
    namespace: Seq<char>,
    selector: Seq<char>,
    list: Seq<model::PodView>,
)
    ensures
        ({
            let listing = RestartView::Listing { namespace, selector };
            let after = restart::after_event(
                listing,
                RestartEventView::Listed { pods: Some(list) },
            );
            &&& (forall|i: int| 0 <= i < list.len() ==> (#[trigger] list[i]).name is None)
                ==> after == (RestartView::Restarted { pod: None })
            &&& (exists|i: int| 0 <= i < list.len() && (#[trigger] list[i]).name is Some)
                ==> after == (RestartView::Deleting {
                namespace,
                selector,
                old: pods::names(list),
                next: 0,
            })
            &&& restart::after_event(listing, RestartEventView::Listed { pods: None }) == (
            RestartView::Failed { error: Failure::ListPods })
        }),
{
    lemma_some_name(list);
}

/// There are names exactly where a pod has one.
proof fn lemma_some_name(list: Seq<model::PodView>)
    ensures
        pods::names(list).len() > 0 <==> exists|i: int|
            0 <= i < list.len() && (#[trigger] list[i]).name is Some,
    decreases list.len(),
{
    if list.len() > 0 {
        let shorter = list.drop_last();
        lemma_some_name(shorter);
        if exists|i: int| 0 <= i < list.len() && (#[trigger] list[i]).name is Some {
            let i = choose|i: int| 0 <= i < list.len() && (#[trigger] list[i]).name is Some;
            if i < shorter.len() {
                assert(shorter[i].name is Some);
            }
        }
        if exists|i: int| 0 <= i < shorter.len() && (#[trigger] shorter[i]).name is Some {
            let i = choose|i: int| 0 <= i < shorter.len() && (#[trigger] shorter[i]).name is Some;
            assert(list[i].name is Some);
        }
        if list.last().name is Some {
            assert(list[list.len() - 1].name is Some);
        }
    }
}

/// A deletion, however it went, is followed by that of the next old pod, and the last one
/// by a look at the clock.
pub proof fn law_next_old_pod_is_next(
    namespace: Seq<char>,
    selector: Seq<char>,
    old: Seq<Seq<char>>,
    next: int,
)
    requires
        0 <= next < old.len(),
    ensures
        restart::after_event(
            RestartView::Deleting { namespace, selector, old, next },
            RestartEventView::Deleted,
        ) == if next + 1 == old.len() {
            RestartView::Timing { namespace, selector, old }
        } else {
            RestartView::Deleting { namespace, selector, old, next: next + 1 }
        },
{
}

/// Time is up when more than 180 seconds have passed, and not before; until then a pause
/// follows, and then a look at the pods.
pub proof fn law_there_are_180_seconds(
    namespace: Seq<char>,
    selector: Seq<char>,
    old: Seq<Seq<char>>,
    nanos: int,
)
    ensures
        restart::after_event(
            RestartView::Timing { namespace, selector, old },
            RestartEventView::Elapsed { nanos },
        ) == if nanos > 180_000_000_000 {
            RestartView::Failed { error: Failure::RestartTimeout }
        } else {
            RestartView::Pausing { namespace, selector, old }
        },
        restart::after_event(
            RestartView::Pausing { namespace, selector, old },
            RestartEventView::Paused,
        ) == (RestartView::Polling { namespace, selector, old }),
{
}

/// The wait ends as soon as a listing, however long, shows a ready pod with a name that
/// is none of the old ones: with the first such pod. A listing without one, and a failed
/// one, lead back to the clock.
pub proof fn law_wait_ends_with_the_first_new_ready_pod(
    namespace: Seq<char>,
    selector: Seq<char>,
    old: Seq<Seq<char>>,
    list: Seq<model::PodView>,
    i: int,
)
    requires
        0 <= i <= list.len(),
        forall|k: int|
            0 <= k < i ==> (#[trigger] list[k]).name is None || old.contains(list[k].name->0)
                || !pods::ready(list[k]),
        i < list.len() ==> list[i].name is Some && !old.contains(list[i].name->0) && pods::ready(
            list[i],
        ),
    ensures
        ({
            let polling = RestartView::Polling { namespace, selector, old };
            let after = restart::after_event(
                polling,
                RestartEventView::Listed { pods: Some(list) },
            );
            &&& i < list.len() ==> after == (RestartView::Restarted { pod: list[i].name })
            &&& i == list.len() ==> after == (RestartView::Timing { namespace, selector, old })
            &&& restart::after_event(polling, RestartEventView::Listed { pods: None }) == (
            RestartView::Timing { namespace, selector, old })
        }),
{
    pods::law_first_new_ready_pod_replaces(list, old, i);
}

/// An event that does not answer what is pending changes nothing.
pub proof fn law_events_out_of_turn_change_nothing(state: RestartView, event: RestartEventView)
    requires
        match event {
            RestartEventView::Fetched { .. } => state !is Fetching,
            RestartEventView::Listed { .. } => state !is Listing && state !is Polling,
            RestartEventView::Deleted => state !is Deleting,
            RestartEventView::Elapsed { .. } => state !is Timing,
            RestartEventView::Paused => state !is Pausing,
        },
    ensures
        restart::after_event(state, event) == state,
{
}

/// What is pending in each state: the requests in the restart's namespace, and a pause of
/// five seconds between two looks.
pub proof fn law_what_is_pending(
    namespace: Seq<char>,
    name: Seq<char>,
    old: Seq<Seq<char>>,
    next: int,
    error: Failure<Seq<char>>,
    pod: Option<Seq<char>>,
)
    ensures
        restart::action_in(RestartView::Fetching { namespace, name }) == (
        RestartActionView::FetchDeployment { namespace, name }),
        restart::action_in(RestartView::Listing { namespace, selector: name }) == (
        RestartActionView::ListPods { namespace, selector: name }),
        restart::action_in(RestartView::Deleting { namespace, selector: name, old, next }) == (
        RestartActionView::DeletePod { namespace, name: old[next] }),
        restart::action_in(RestartView::Timing { namespace, selector: name, old }) == (
        RestartActionView::ReadClock),
        restart::action_in(RestartView::Pausing { namespace, selector: name, old }) == (
        RestartActionView::Pause { seconds: 5 }),
        restart::action_in(RestartView::Polling { namespace, selector: name, old }) == (
        RestartActionView::ListPods { namespace, selector: name }),
        restart::action_in(RestartView::Restarted { pod }) == RestartActionView::Stop,
        restart::action_in(RestartView::Failed { error }) == RestartActionView::Stop,
{
}

/// The model of an event has the labels or the pods that it brings, or the time, and that
/// of an action what it asks for.
pub proof fn law_events_and_actions_are_kept<S>(
    deployment: Deployment<S>,
    list: Vec<Pod>,
    nanos: u128,
    namespace: String,
    name: String,
    seconds: u64,
)
    ensures
        (RestartEvent::Fetched(None::<Deployment<S>>))@ == (RestartEventView::Fetched {
            labels: None,
        }),
        deployment.match_labels() is None ==> (RestartEvent::Fetched(Some(deployment)))@ == (
        RestartEventView::Fetched { labels: Some(None) }),
        deployment.match_labels() is Some ==> (RestartEvent::Fetched(Some(deployment)))@ == (
        RestartEventView::Fetched { labels: Some(Some(deployment.match_labels()->0@)) }),
        (RestartEvent::<S>::Listed(None))@ == (RestartEventView::Listed { pods: None }),
        (RestartEvent::<S>::Listed(Some(list)))@ matches RestartEventView::Listed {
            pods: Some(models),
        } && models.len() == list@.len() && forall|i: int|
            0 <= i < models.len() ==> #[trigger] models[i] == list@[i]@,
        (RestartEvent::<S>::Deleted)@ == RestartEventView::Deleted,
        (RestartEvent::<S>::Elapsed { nanos })@ == (RestartEventView::Elapsed {
            nanos: nanos as int,
        }),
        (RestartEvent::<S>::Paused)@ == RestartEventView::Paused,
        (RestartAction::FetchDeployment { namespace, name })@ == (
        RestartActionView::FetchDeployment { namespace: namespace@, name: name@ }),
        (RestartAction::ListPods { namespace, selector: name })@ == (RestartActionView::ListPods {
            namespace: namespace@,
            selector: name@,
        }),
        (RestartAction::DeletePod { namespace, name })@ == (RestartActionView::DeletePod {
            namespace: namespace@,
            name: name@,
        }),
        RestartAction::ReadClock@ == RestartActionView::ReadClock,
        (RestartAction::Pause { seconds })@ == (RestartActionView::Pause {
            seconds: seconds as int,
        }),
        RestartAction::Stop@ == RestartActionView::Stop,
{
}

} // verus!

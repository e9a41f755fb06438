//! Restarting the operator's pods.
//!
//! A restart reads the Deployment, lists the pods that it selects, deletes each of
//! them, and then looks again and again until a new pod is ready or time is up. It
//! has one action pending at a time; the event that answers it decides what is next.

use vstd::prelude::*;

use crate::error::{Failure, OperatorError};
use crate::labels;
use crate::model;
use crate::model::{Deployment, Pod};
use crate::pods;
use crate::text;

verus! {

/// How long to pause between two looks at the pods, in seconds.
pub const POLL_SECONDS: u64 = 5;

/// How long to wait for a new pod, in nanoseconds: 180 seconds.
pub const TIMEOUT_NANOS: u128 = 180_000_000_000;

enum State {
    Fetching { namespace: String, name: String },
    Listing { namespace: String, selector: String },
    Deleting { namespace: String, selector: String, old: Vec<String>, next: usize },
    Timing { namespace: String, selector: String, old: Vec<String> },
    Pausing { namespace: String, selector: String, old: Vec<String> },
    Polling { namespace: String, selector: String, old: Vec<String> },
    Restarted { pod: Option<String> },
    Failed { error: OperatorError },
}

/// A restart of the operator's pods.
pub struct Restart {
    state: State,
}

/// Model of a [`Restart`].
pub enum RestartView {
    /// The Deployment is being read.
    Fetching { namespace: Seq<char>, name: Seq<char> },
    /// The pods to restart are being listed.
    Listing { namespace: Seq<char>, selector: Seq<char> },
    /// The pod at `next` of the `old` ones is being deleted.
    Deleting { namespace: Seq<char>, selector: Seq<char>, old: Seq<Seq<char>>, next: int },
    /// The time since the last deletion is being read.
    Timing { namespace: Seq<char>, selector: Seq<char>, old: Seq<Seq<char>> },
    /// A pause.
    Pausing { namespace: Seq<char>, selector: Seq<char>, old: Seq<Seq<char>> },
    /// The pods are being listed, to find a new one.
    Polling { namespace: Seq<char>, selector: Seq<char>, old: Seq<Seq<char>> },
    /// Done: with the new pod, or with none where there was none to restart.
    Restarted { pod: Option<Seq<char>> },
    /// Given up.
    Failed { error: Failure<Seq<char>> },
}

/// What to do next.
#[derive(Debug, PartialEq, Eq)]
pub enum RestartAction {
    /// Read the Deployment `name`.
    FetchDeployment { namespace: String, name: String },
    /// List the pods that `selector` matches.
    ListPods { namespace: String, selector: String },
    /// Delete the pod `name`.
    DeletePod { namespace: String, name: String },
    /// Read how much time has passed since the last pod was deleted.
    ReadClock,
    /// Do nothing for so many seconds.
    Pause { seconds: u64 },
    /// Nothing is left to do.
    Stop,
}

/// Model of a [`RestartAction`].
pub enum RestartActionView {
    FetchDeployment { namespace: Seq<char>, name: Seq<char> },
    ListPods { namespace: Seq<char>, selector: Seq<char> },
    DeletePod { namespace: Seq<char>, name: Seq<char> },
    ReadClock,
    Pause { seconds: int },
    Stop,
}

/// What came of an action.
pub enum RestartEvent<S> {
    /// The Deployment; nothing where it could not be read.
    Fetched(Option<Deployment<S>>),
    /// The pods; nothing where they could not be listed.
    Listed(Option<Vec<Pod>>),
    /// The deletion was tried, with or without success.
    Deleted,
    /// The time that has passed.
    Elapsed { nanos: u128 },
    /// The pause is over.
    Paused,
}

/// Model of a [`RestartEvent`].
pub enum RestartEventView {
    /// The labels that the Deployment selects its pods by.
    Fetched { labels: Option<Option<Map<Seq<char>, Seq<char>>>> },
    Listed { pods: Option<Seq<model::PodView>> },
    Deleted,
    Elapsed { nanos: int },
    Paused,
}

impl<S> View for RestartEvent<S> {
    type V = RestartEventView;

    open spec fn view(&self) -> RestartEventView {
        match *self {
            RestartEvent::Fetched(reply) => RestartEventView::Fetched {
                labels: match reply {
                    Some(deployment) => Some(
                        match deployment.match_labels() {
                            Some(labels) => Some(labels@),
                            None => None,
                        },
                    ),
                    None => None,
                },
            },
            RestartEvent::Listed(reply) => RestartEventView::Listed {
                pods: match reply {
                    Some(list) => Some(model::pods(list@)),
                    None => None,
                },
            },
            RestartEvent::Deleted => RestartEventView::Deleted,
            RestartEvent::Elapsed { nanos } => RestartEventView::Elapsed { nanos: nanos as int },
            RestartEvent::Paused => RestartEventView::Paused,
        }
    }
}

impl View for RestartAction {
    type V = RestartActionView;

    open spec fn view(&self) -> RestartActionView {
        match *self {
            RestartAction::FetchDeployment { namespace, name } =>
                RestartActionView::FetchDeployment { namespace: namespace@, name: name@ },
            RestartAction::ListPods { namespace, selector } => RestartActionView::ListPods {
                namespace: namespace@,
                selector: selector@,
            },
            RestartAction::DeletePod { namespace, name } => RestartActionView::DeletePod {
                namespace: namespace@,
                name: name@,
            },
            RestartAction::ReadClock => RestartActionView::ReadClock,
            RestartAction::Pause { seconds } => RestartActionView::Pause {
                seconds: seconds as int,
            },
            RestartAction::Stop => RestartActionView::Stop,
        }
    }
}

impl View for Restart {
    type V = RestartView;

    closed spec fn view(&self) -> RestartView {
        match self.state {
            State::Fetching { namespace, name } => RestartView::Fetching {
                namespace: namespace@,
                name: name@,
            },
            State::Listing { namespace, selector } => RestartView::Listing {
                namespace: namespace@,
                selector: selector@,
            },
            State::Deleting { namespace, selector, old, next } => RestartView::Deleting {
                namespace: namespace@,
                selector: selector@,
                old: text::texts(old@),
                next: next as int,
            },
            State::Timing { namespace, selector, old } => RestartView::Timing {
                namespace: namespace@,
                selector: selector@,
                old: text::texts(old@),
            },
            State::Pausing { namespace, selector, old } => RestartView::Pausing {
                namespace: namespace@,
                selector: selector@,
                old: text::texts(old@),
            },
            State::Polling { namespace, selector, old } => RestartView::Polling {
                namespace: namespace@,
                selector: selector@,
                old: text::texts(old@),
            },
            State::Restarted { pod } => RestartView::Restarted { pod: text::opt_text(pod) },
            State::Failed { error } => RestartView::Failed { error: error@ },
        }
    }
}

/// The action that is pending in `state`.
pub open spec fn action_in(state: RestartView) -> RestartActionView {
    match state {
        RestartView::Fetching { namespace, name } => RestartActionView::FetchDeployment {
            namespace,
            name,
        },
        RestartView::Listing { namespace, selector } => RestartActionView::ListPods {
            namespace,
            selector,
        },
        RestartView::Deleting { namespace, old, next, .. } => RestartActionView::DeletePod {
            namespace,
            name: old[next],
        },
        RestartView::Timing { .. } => RestartActionView::ReadClock,
        RestartView::Pausing { .. } => RestartActionView::Pause { seconds: POLL_SECONDS as int },
        RestartView::Polling { namespace, selector, .. } => RestartActionView::ListPods {
            namespace,
            selector,
        },
        RestartView::Restarted { .. } => RestartActionView::Stop,
        RestartView::Failed { .. } => RestartActionView::Stop,
    }
}

/// The state after `event` in `state`. An event that answers another action than the
/// pending one changes nothing.
pub open spec fn after_event(state: RestartView, event: RestartEventView) -> RestartView {
    match (state, event) {
        (RestartView::Fetching { namespace, name }, RestartEventView::Fetched { labels }) =>
            match labels {
            None => RestartView::Failed { error: Failure::GetDeployment { namespace, name } },
            Some(None) => RestartView::Failed { error: Failure::NoMatchLabels },
            Some(Some(map)) => RestartView::Listing {
                namespace,
                selector: labels::selector_for(map),
            },
        },
        (RestartView::Listing { namespace, selector }, RestartEventView::Listed { pods: reply }) =>
            match reply {
            None => RestartView::Failed { error: Failure::ListPods },
            Some(list) => if pods::names(list).len() == 0 {
                RestartView::Restarted { pod: None }
            } else {
                RestartView::Deleting { namespace, selector, old: pods::names(list), next: 0 }
            },
        },
        (RestartView::Deleting { namespace, selector, old, next }, RestartEventView::Deleted) =>
            if next + 1 < old.len() {
            RestartView::Deleting { namespace, selector, old, next: next + 1 }
        } else {
            RestartView::Timing { namespace, selector, old }
        },
        (RestartView::Timing { namespace, selector, old }, RestartEventView::Elapsed { nanos }) =>
            if nanos > TIMEOUT_NANOS {
            RestartView::Failed { error: Failure::RestartTimeout }
        } else {
            RestartView::Pausing { namespace, selector, old }
        },
        (RestartView::Pausing { namespace, selector, old }, RestartEventView::Paused) =>
            RestartView::Polling { namespace, selector, old },
        (
            RestartView::Polling { namespace, selector, old },
            RestartEventView::Listed { pods: reply },
        ) => match reply {
            None => RestartView::Timing { namespace, selector, old },
            Some(list) => match pods::replacement(list, old) {
                Some(name) => RestartView::Restarted { pod: Some(name) },
                None => RestartView::Timing { namespace, selector, old },
            },
        },
        _ => state,
    }
}

impl Restart {
    #[verifier::type_invariant]
    spec fn in_range(self) -> bool {
        match self.state {
            State::Deleting { namespace, selector, old, next } => next < old@.len(),
            _ => true,
        }
    }

    /// A restart of the pods of the Deployment `name`.
    pub fn start(namespace: String, name: String) -> (restart: Restart)
        ensures
            restart@ == (RestartView::Fetching { namespace: namespace@, name: name@ }),
    {
        Restart { state: State::Fetching { namespace: namespace, name: name } }
    }

    /// The pending action.
    pub fn action(&self) -> (action: RestartAction)
        ensures
            action@ == action_in(self@),
    {
        proof {
            use_type_invariant(self);
        }
        match &self.state {
            State::Fetching { namespace, name } => RestartAction::FetchDeployment {
                namespace: namespace.clone(),
                name: name.clone(),
            },
            State::Listing { namespace, selector } => RestartAction::ListPods {
                namespace: namespace.clone(),
                selector: selector.clone(),
            },
            State::Deleting { namespace, old, next, .. } => RestartAction::DeletePod {
                namespace: namespace.clone(),
                name: old[*next].clone(),
            },
            State::Timing { .. } => RestartAction::ReadClock,
            State::Pausing { .. } => RestartAction::Pause { seconds: POLL_SECONDS },
            State::Polling { namespace, selector, .. } => RestartAction::ListPods {
                namespace: namespace.clone(),
                selector: selector.clone(),
            },
            State::Restarted { .. } => RestartAction::Stop,
            State::Failed { .. } => RestartAction::Stop,
        }
    }

    /// How the restart ended; nothing while an action is pending.
    ///
    /// A good end names the new pod, or none where there was no pod to restart.
    pub fn finish(self) -> (end: Option<Result<Option<String>, OperatorError>>)
        ensures
            match self@ {
                RestartView::Restarted { pod } => end matches Some(Ok(name)) && text::opt_text(name)
                    == pod,
                RestartView::Failed { error } => end matches Some(Err(e)) && e@ == error,
                _ => end is None,
            },
    {
        match self.state {
            State::Restarted { pod } => Some(Ok(pod)),
            State::Failed { error } => Some(Err(error)),
            _ => None,
        }
    }
}

/// Restart the operator pod by deleting existing pods and waiting for a new Ready pod:
/// the state after the event that answers the pending action.
pub fn restart_operator_pod<S>(restart: Restart, event: RestartEvent<S>) -> (after: Restart)
    ensures
        after@ == after_event(restart@, event@),
{
    proof {
        use_type_invariant(&restart);
    }
    match (restart.state, event) {
        (State::Fetching { namespace, name }, RestartEvent::Fetched(reply)) => match reply {
            None => Restart {
                state: State::Failed {
                    error: Failure::GetDeployment { namespace: namespace, name: name },
                },
            },
            Some(deployment) => {
                let state: State = match &deployment.spec {
                    None => State::Failed { error: Failure::NoMatchLabels },
                    Some(spec) => match &spec.match_labels {
                        None => State::Failed { error: Failure::NoMatchLabels },
                        Some(labels) => State::Listing {
                            namespace: namespace,
                            selector: labels.selector(),
                        },
                    },
                };
                Restart { state: state }
            },
        },
        (State::Listing { namespace, selector }, RestartEvent::Listed(reply)) => match reply {
            None => Restart { state: State::Failed { error: Failure::ListPods } },
            Some(list) => {
                let old: Vec<String> = pods::pod_names(&list);
                assert(text::texts(old@).len() == old@.len());
                if old.len() == 0 {
                    Restart { state: State::Restarted { pod: None } }
                } else {
                    Restart {
                        state: State::Deleting {
                            namespace: namespace,
                            selector: selector,
                            old: old,
                            next: 0,
                        },
                    }
                }
            },
        },
        (State::Deleting { namespace, selector, old, next }, RestartEvent::Deleted) => {
            let count: usize = old.len();
            if next + 1 < count {
                Restart {
                    state: State::Deleting {
                        namespace: namespace,
                        selector: selector,
                        old: old,
                        next: next + 1,
                    },
                }
            } else {
                Restart {
                    state: State::Timing { namespace: namespace, selector: selector, old: old },
                }
            }
        },
        (State::Timing { namespace, selector, old }, RestartEvent::Elapsed { nanos }) => {
            if nanos > TIMEOUT_NANOS {
                Restart { state: State::Failed { error: Failure::RestartTimeout } }
            } else {
                Restart {
                    state: State::Pausing { namespace: namespace, selector: selector, old: old },
                }
            }
        },
        (State::Pausing { namespace, selector, old }, RestartEvent::Paused) => Restart {
            state: State::Polling { namespace: namespace, selector: selector, old: old },
        },
        (State::Polling { namespace, selector, old }, RestartEvent::Listed(reply)) => match reply {
            None => Restart {
                    state: State::Timing { namespace: namespace, selector: selector, old: old },
                },
            Some(list) => match pods::find_replacement(&list, &old) {
                Some(name) => Restart { state: State::Restarted { pod: Some(name) } },
                None => Restart {
                    state: State::Timing { namespace: namespace, selector: selector, old: old },
                },
            },
        },
        (state, _) => Restart { state: state },
    }
}

} // verus!

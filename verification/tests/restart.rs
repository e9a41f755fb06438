use operator_deploy::error::OperatorError;
use operator_deploy::labels::Labels;
use operator_deploy::model::{Deployment, DeploymentSpec, Pod, PodCondition, PodStatus};
use operator_deploy::restart::{
    restart_operator_pod, Restart, RestartAction, RestartEvent, POLL_SECONDS, TIMEOUT_NANOS,
};

fn deployment() -> Deployment<u8> {
    let mut labels = Labels::new();
    labels.insert("name".to_string(), "op".to_string());
    labels.insert("app".to_string(), "tekton".to_string());
    Deployment { spec: Some(DeploymentSpec { match_labels: Some(labels), pod_spec: None }) }
}

fn pod(name: &str, ready: bool) -> Pod {
    Pod {
        name: Some(name.to_string()),
        status: Some(PodStatus {
            phase: Some("Running".to_string()),
            conditions: Some(vec![PodCondition {
                type_: "Ready".to_string(),
                status: if ready { "True".to_string() } else { "False".to_string() },
            }]),
        }),
    }
}

fn start() -> Restart {
    Restart::start("ns".to_string(), "op".to_string())
}

fn after(restart: Restart, events: Vec<RestartEvent<u8>>) -> Restart {
    events.into_iter().fold(restart, restart_operator_pod)
}

fn selector() -> String {
    "app=tekton,name=op".to_string()
}

fn fetch() -> RestartAction {
    RestartAction::FetchDeployment { namespace: "ns".to_string(), name: "op".to_string() }
}

fn list_pods(selector: &str) -> RestartAction {
    RestartAction::ListPods { namespace: "ns".to_string(), selector: selector.to_string() }
}

fn delete(name: &str) -> RestartAction {
    RestartAction::DeletePod { namespace: "ns".to_string(), name: name.to_string() }
}

/// A restart of the pods `a` and `b`, which are deleted; the clock is next.
fn waiting() -> Restart {
    after(
        start(),
        vec![
            RestartEvent::Fetched(Some(deployment())),
            RestartEvent::Listed(Some(vec![pod("a", true), pod("b", false)])),
            RestartEvent::Deleted,
            RestartEvent::Deleted,
        ],
    )
}

#[test]
fn the_whole_restart() {
    let restart = start();
    assert_eq!(restart.action(), fetch());
    let restart = restart_operator_pod(restart, RestartEvent::Fetched(Some(deployment())));
    assert_eq!(restart.action(), list_pods(&selector()));
    let listed = Some(vec![pod("a", true), pod("b", false)]);
    let restart = restart_operator_pod(restart, RestartEvent::<u8>::Listed(listed));
    assert_eq!(restart.action(), delete("a"));
    let restart = restart_operator_pod(restart, RestartEvent::<u8>::Deleted);
    assert_eq!(restart.action(), delete("b"));
    let restart = restart_operator_pod(restart, RestartEvent::<u8>::Deleted);
    assert_eq!(restart.action(), RestartAction::ReadClock);
    let restart = restart_operator_pod(restart, RestartEvent::<u8>::Elapsed { nanos: 0 });
    assert_eq!(restart.action(), RestartAction::Pause { seconds: 5 });
    let restart = restart_operator_pod(restart, RestartEvent::<u8>::Paused);
    assert_eq!(restart.action(), list_pods(&selector()));
    let listed = Some(vec![pod("a", true), pod("c", true)]);
    let restart = restart_operator_pod(restart, RestartEvent::<u8>::Listed(listed));
    assert_eq!(restart.action(), RestartAction::Stop);
    assert_eq!(restart.finish(), Some(Ok(Some("c".to_string()))));
}

#[test]
fn waiting_goes_on_without_a_new_ready_pod() {
    let looks = [
        None,
        Some(vec![]),
        Some(vec![pod("a", true), pod("b", true)]),
        Some(vec![pod("c", false)]),
    ];
    let mut restart = waiting();
    for look in looks {
        assert_eq!(restart.action(), RestartAction::ReadClock);
        restart = after(
            restart,
            vec![
                RestartEvent::Elapsed { nanos: TIMEOUT_NANOS },
                RestartEvent::Paused,
                RestartEvent::Listed(look),
            ],
        );
    }
    assert_eq!(restart.action(), RestartAction::ReadClock);
    assert_eq!(restart.finish(), None);
}

#[test]
fn time_is_up_after_the_timeout_only() {
    assert_eq!(TIMEOUT_NANOS, 180_000_000_000);
    assert_eq!(POLL_SECONDS, 5);
    let on_time = after(waiting(), vec![RestartEvent::Elapsed { nanos: TIMEOUT_NANOS }]);
    assert_eq!(on_time.action(), RestartAction::Pause { seconds: 5 });
    let late = after(waiting(), vec![RestartEvent::Elapsed { nanos: TIMEOUT_NANOS + 1 }]);
    assert_eq!(late.action(), RestartAction::Stop);
    assert_eq!(late.finish(), Some(Err(OperatorError::RestartTimeout)));
}

#[test]
fn no_pods_no_restart() {
    let nameless = Pod { name: None, status: None };
    for list in [vec![], vec![nameless]] {
        let restart = after(
            start(),
            vec![RestartEvent::Fetched(Some(deployment())), RestartEvent::Listed(Some(list))],
        );
        assert_eq!(restart.finish(), Some(Ok(None)));
    }
}

#[test]
fn a_restart_needs_the_deployment() {
    let restart = after(start(), vec![RestartEvent::Fetched(None)]);
    assert_eq!(
        restart.finish(),
        Some(Err(OperatorError::GetDeployment {
            namespace: "ns".to_string(),
            name: "op".to_string(),
        }))
    );
}

#[test]
fn a_restart_needs_labels() {
    let bare = Deployment { spec: None };
    let restart = after(start(), vec![RestartEvent::Fetched(Some(bare))]);
    assert_eq!(restart.finish(), Some(Err(OperatorError::NoMatchLabels)));
    let spec = DeploymentSpec { match_labels: None, pod_spec: None };
    let unlabelled = Deployment { spec: Some(spec) };
    let restart = after(start(), vec![RestartEvent::Fetched(Some(unlabelled))]);
    assert_eq!(restart.finish(), Some(Err(OperatorError::NoMatchLabels)));
}

#[test]
fn empty_labels_select_all_pods() {
    let spec = DeploymentSpec { match_labels: Some(Labels::new()), pod_spec: None };
    let restart =
        after(start(), vec![RestartEvent::Fetched(Some(Deployment { spec: Some(spec) }))]);
    assert_eq!(restart.action(), list_pods(""));
}

#[test]
fn a_restart_needs_the_first_listing() {
    let restart = after(
        start(),
        vec![RestartEvent::Fetched(Some(deployment())), RestartEvent::Listed(None)],
    );
    assert_eq!(restart.finish(), Some(Err(OperatorError::ListPods)));
}

#[test]
fn an_ended_restart_does_not_change() {
    let ended = after(start(), vec![RestartEvent::Fetched(None)]);
    let later = after(
        ended,
        vec![RestartEvent::Fetched(Some(deployment())), RestartEvent::Paused, RestartEvent::Deleted],
    );
    assert_eq!(later.action(), RestartAction::Stop);
    assert!(matches!(later.finish(), Some(Err(OperatorError::GetDeployment { .. }))));
}

#[test]
fn events_out_of_turn_change_nothing() {
    let restart = after(
        start(),
        vec![RestartEvent::Paused, RestartEvent::Deleted, RestartEvent::Listed(Some(vec![]))],
    );
    assert_eq!(restart.action(), fetch());
}

#[test]
fn a_listing_out_of_turn_is_not_acted_on() {
    let restart = after(
        start(),
        vec![
            RestartEvent::Listed(Some(vec![pod("x", true)])),
            RestartEvent::Fetched(Some(deployment())),
            RestartEvent::Listed(Some(vec![pod("a", true)])),
            RestartEvent::Listed(Some(vec![pod("y", true)])),
        ],
    );
    assert_eq!(restart.action(), delete("a"));
    let restart = after(restart, vec![RestartEvent::Deleted]);
    assert_eq!(restart.action(), RestartAction::ReadClock);
}

#[test]
fn every_look_asks_for_the_same_pods() {
    let mut restart = waiting();
    for _ in 0..3 {
        restart = after(restart, vec![RestartEvent::Elapsed { nanos: 1 }, RestartEvent::Paused]);
        assert_eq!(restart.action(), list_pods(&selector()));
        restart = after(restart, vec![RestartEvent::Listed(Some(vec![pod("c", false)]))]);
    }
    assert_eq!(restart.action(), RestartAction::ReadClock);
}

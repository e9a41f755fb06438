use operator_deploy::deploy::{run_deploy, Deploy, DeployEvent, DeployStep};
use operator_deploy::error::OperatorError;

fn config() -> DeployEvent {
    DeployEvent::ConfigLoaded(vec![
        ("pipeline".to_string(), None),
        ("manual-approval-gate".to_string(), Some("manualapprovalgate".to_string())),
    ])
}

fn built() -> DeployEvent {
    DeployEvent::MappingsBuilt(vec![("IMAGE_A".to_string(), "a@sha".to_string())])
}

fn found() -> DeployEvent {
    DeployEvent::DeploymentFound {
        namespace: "openshift-operators".to_string(),
        name: "tekton-operator".to_string(),
    }
}

fn events() -> Vec<(DeployStep, DeployEvent)> {
    vec![
        (DeployStep::Connect, DeployEvent::Succeeded),
        (DeployStep::VerifyOperator, DeployEvent::Succeeded),
        (DeployStep::LoadConfig, config()),
        (DeployStep::BuildMappings, built()),
        (DeployStep::ShowMappings, DeployEvent::Succeeded),
        (DeployStep::FindDeployment, found()),
        (DeployStep::PatchDeployment, DeployEvent::Succeeded),
        (DeployStep::RestartPod, DeployEvent::Succeeded),
        (DeployStep::VerifyEnv, DeployEvent::EnvVerified(true)),
        (DeployStep::EnsurePullAccess, DeployEvent::Succeeded),
        (DeployStep::DeleteInstallerSets, DeployEvent::Succeeded),
        (DeployStep::AwaitReconciliation, DeployEvent::Succeeded),
    ]
}

/// A deploy whose first `count` steps succeeded.
fn after(component: &str, count: usize) -> Deploy {
    let mut deploy = Deploy::start(component, "route.example.com/tekton-upstream");
    for (step, event) in events().into_iter().take(count) {
        assert_eq!(deploy.step(), step);
        run_deploy(&mut deploy, event);
    }
    deploy
}

#[test]
fn steps_come_in_order() {
    let deploy = after("pipeline", 12);
    assert_eq!(deploy.step(), DeployStep::Complete { reconciled: true });
    assert_eq!(deploy.error(), None);
}

#[test]
fn what_is_deployed() {
    let deploy = after("pipeline", 11);
    assert_eq!(deploy.component(), "pipeline");
    assert_eq!(
        deploy.internal_registry(),
        "image-registry.openshift-image-registry.svc:5000/tekton-upstream"
    );
    assert_eq!(deploy.image_namespace(), "tekton-upstream");
    assert_eq!(deploy.namespace(), "openshift-operators");
    assert_eq!(deploy.deployment_name(), "tekton-operator");
    assert_eq!(deploy.mappings(), [("IMAGE_A".to_string(), "a@sha".to_string())]);
    assert_eq!(deploy.installer_set_prefix(), None);
}

#[test]
fn prefix_is_the_components_own() {
    assert_eq!(
        after("manual-approval-gate", 3).installer_set_prefix(),
        Some("manualapprovalgate")
    );
    assert_eq!(after("unknown", 3).installer_set_prefix(), None);
    assert_eq!(after("manual-approval-gate", 2).installer_set_prefix(), None);
}

#[test]
fn a_failed_step_ends_the_deploy() {
    for count in 0..11 {
        let mut deploy = after("pipeline", count);
        run_deploy(&mut deploy, DeployEvent::Failed);
        assert_eq!(deploy.step(), DeployStep::StepFailed);
        assert_eq!(deploy.error(), None);
        for (_, event) in events() {
            run_deploy(&mut deploy, event);
        }
        assert_eq!(deploy.step(), DeployStep::StepFailed);
    }
}

#[test]
fn a_failed_wait_does_not_fail_the_deploy() {
    let mut deploy = after("pipeline", 11);
    run_deploy(&mut deploy, DeployEvent::Failed);
    assert_eq!(deploy.step(), DeployStep::Complete { reconciled: false });
    run_deploy(&mut deploy, DeployEvent::Failed);
    assert_eq!(deploy.step(), DeployStep::Complete { reconciled: false });
}

#[test]
fn lost_mappings_end_the_deploy() {
    let mut deploy = after("pipeline", 8);
    run_deploy(&mut deploy, DeployEvent::EnvVerified(false));
    assert_eq!(deploy.step(), DeployStep::EnvReverted);
    assert_eq!(deploy.error(), Some(OperatorError::EnvReverted));
    run_deploy(&mut deploy, DeployEvent::Failed);
    run_deploy(&mut deploy, DeployEvent::EnvVerified(true));
    assert_eq!(deploy.step(), DeployStep::EnvReverted);
}

#[test]
fn answers_to_other_steps_change_nothing() {
    for count in 0..12 {
        for (step, event) in events() {
            let mut deploy = after("pipeline", count);
            let pending = deploy.step();
            let plain = matches!(event, DeployEvent::Succeeded);
            if step == pending || plain {
                continue;
            }
            run_deploy(&mut deploy, event);
            assert_eq!(deploy.step(), pending);
        }
    }
}

#[test]
fn what_is_deployed_stays_the_same() {
    let mut deploy = after("pipeline", 6);
    run_deploy(&mut deploy, DeployEvent::MappingsBuilt(vec![]));
    run_deploy(
        &mut deploy,
        DeployEvent::DeploymentFound { namespace: "x".to_string(), name: "y".to_string() },
    );
    run_deploy(&mut deploy, DeployEvent::ConfigLoaded(vec![]));
    assert_eq!(deploy.step(), DeployStep::PatchDeployment);
    assert_eq!(deploy.mappings().len(), 1);
    assert_eq!(deploy.namespace(), "openshift-operators");
    assert_eq!(deploy.deployment_name(), "tekton-operator");
}

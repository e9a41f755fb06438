use operator_deploy::error::OperatorError;

fn s(text: &str) -> String {
    text.to_string()
}

#[test]
fn messages_about_the_installation() {
    assert_eq!(
        OperatorError::OperatorNotInstalled.message(),
        "OpenShift Pipelines operator not found. TektonConfig CR 'config' does not exist.\nIs the operator installed?"
    );
    assert_eq!(
        OperatorError::OperatorForbidden.message(),
        "Insufficient permissions to read TektonConfig CR.\nEnsure you have cluster-admin or appropriate RBAC."
    );
    assert_eq!(OperatorError::OperatorCheck.message(), "Failed to verify operator installation");
}

#[test]
fn messages_about_the_search() {
    assert_eq!(
        OperatorError::ListDeployments { namespace: s("ns") }.message(),
        "Failed to list deployments in namespace ns"
    );
    assert_eq!(
        OperatorError::DeploymentNotFound { namespaces: s("a, b"), names: s("c"), labels: s("d=e") }
            .message(),
        "Operator controller deployment not found.\nChecked namespaces: a, b\nChecked names: c\nChecked labels: d=e"
    );
}

#[test]
fn messages_about_the_deployment() {
    let (namespace, name) = (s("ns"), s("op"));
    assert_eq!(
        OperatorError::GetDeployment { namespace, name }.message(),
        "Failed to get Deployment ns/op"
    );
    assert_eq!(
        OperatorError::RereadDeployment { namespace: s("ns"), name: s("op") }.message(),
        "Failed to re-read Deployment ns/op"
    );
    assert_eq!(
        OperatorError::UpdateDeployment { namespace: s("ns"), name: s("op") }.message(),
        "Failed to update Deployment ns/op with IMAGE_ env vars"
    );
    assert_eq!(
        OperatorError::NoContainers.message(),
        "Deployment has no containers in spec.template.spec.containers"
    );
    assert_eq!(
        OperatorError::NoLifecycleContainer.message(),
        "Container 'openshift-pipelines-operator-lifecycle' not found in Deployment"
    );
    assert_eq!(
        OperatorError::NoMatchLabels.message(),
        "Deployment has no spec.selector.matchLabels"
    );
    assert_eq!(
        OperatorError::EnvReverted.message(),
        "Deployment env vars were reverted (possibly by OLM). Cannot proceed — operator would reconcile with old images."
    );
}

#[test]
fn messages_about_the_rest() {
    assert_eq!(OperatorError::ListInstallerSets.message(), "Failed to list TektonInstallerSets");
    assert_eq!(
        OperatorError::CreateRoleBinding { namespace: s("ns") }.message(),
        "Failed to create image-puller RoleBinding in ns"
    );
    assert_eq!(
        OperatorError::BuildRoleBinding.message(),
        "Failed to build image-puller RoleBinding"
    );
    assert_eq!(OperatorError::ListPods.message(), "Failed to list operator pods");
    assert_eq!(
        OperatorError::RestartTimeout.message(),
        "Timed out waiting for new operator pod to become Ready (180s)"
    );
}

#[test]
fn failed_requests_keep_their_cause() {
    assert!(OperatorError::OperatorCheck.wraps_cause());
    assert!(OperatorError::ListDeployments { namespace: s("ns") }.wraps_cause());
    assert!(OperatorError::ListPods.wraps_cause());
    assert!(OperatorError::ListInstallerSets.wraps_cause());
    assert!(OperatorError::GetDeployment { namespace: s("a"), name: s("b") }.wraps_cause());
    assert!(OperatorError::RereadDeployment { namespace: s("a"), name: s("b") }.wraps_cause());
    assert!(OperatorError::UpdateDeployment { namespace: s("a"), name: s("b") }.wraps_cause());
    assert!(OperatorError::CreateRoleBinding { namespace: s("a") }.wraps_cause());
    assert!(!OperatorError::OperatorNotInstalled.wraps_cause());
    assert!(!OperatorError::OperatorForbidden.wraps_cause());
    assert!(!OperatorError::NoContainers.wraps_cause());
    assert!(!OperatorError::NoLifecycleContainer.wraps_cause());
    assert!(!OperatorError::NoMatchLabels.wraps_cause());
    assert!(!OperatorError::RestartTimeout.wraps_cause());
    assert!(!OperatorError::EnvReverted.wraps_cause());
}

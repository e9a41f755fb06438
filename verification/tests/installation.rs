use operator_deploy::error::OperatorError;
use operator_deploy::installation::{verify_operator, RequestFailure, ResourceKind, CONFIG_NAME};

#[test]
fn configuration_that_was_read_is_handed_on() {
    assert_eq!(verify_operator(Ok(7)), Ok(7));
}

#[test]
fn not_found_is_not_installed() {
    let result = verify_operator::<u8>(Err(RequestFailure { code: Some(404) }));
    assert_eq!(result, Err(OperatorError::OperatorNotInstalled));
}

#[test]
fn forbidden_is_told_apart() {
    let result = verify_operator::<u8>(Err(RequestFailure { code: Some(403) }));
    assert_eq!(result, Err(OperatorError::OperatorForbidden));
}

#[test]
fn other_failures_get_context() {
    for code in [None, Some(500), Some(401), Some(0)] {
        let result = verify_operator::<u8>(Err(RequestFailure { code }));
        assert_eq!(result, Err(OperatorError::OperatorCheck));
    }
}

#[test]
fn resource_kinds() {
    assert_eq!(
        ResourceKind::tekton_config(),
        ResourceKind {
            group: "operator.tekton.dev".to_string(),
            version: "v1alpha1".to_string(),
            api_version: "operator.tekton.dev/v1alpha1".to_string(),
            kind: "TektonConfig".to_string(),
            plural: "tektonconfigs".to_string(),
        }
    );
    assert_eq!(
        ResourceKind::tekton_installer_set(),
        ResourceKind {
            group: "operator.tekton.dev".to_string(),
            version: "v1alpha1".to_string(),
            api_version: "operator.tekton.dev/v1alpha1".to_string(),
            kind: "TektonInstallerSet".to_string(),
            plural: "tektoninstallersets".to_string(),
        }
    );
    assert_eq!(CONFIG_NAME, "config");
}

use operator_deploy::error::OperatorError;
use operator_deploy::rbac::{
    ensure_image_pull_rbac, grant_result, RoleBinding, RoleRef, Subject, PULLER_BINDING,
};

#[test]
fn an_existing_binding_is_left_alone() {
    assert_eq!(ensure_image_pull_rbac(true, "tekton-upstream"), Ok(None));
}

#[test]
fn a_missing_binding_is_to_be_created() {
    let expected = RoleBinding {
        name: Some("image-puller-all-authenticated".to_string()),
        namespace: Some("tekton-upstream".to_string()),
        role_ref: RoleRef {
            api_group: "rbac.authorization.k8s.io".to_string(),
            kind: "ClusterRole".to_string(),
            name: "system:image-puller".to_string(),
        },
        subjects: Some(vec![Subject {
            api_group: Some("rbac.authorization.k8s.io".to_string()),
            kind: "Group".to_string(),
            name: "system:authenticated".to_string(),
            namespace: None,
        }]),
    };
    assert_eq!(ensure_image_pull_rbac(false, "tekton-upstream"), Ok(Some(expected)));
    assert_eq!(PULLER_BINDING, "image-puller-all-authenticated");
}

#[test]
fn the_binding_is_in_the_image_namespace() {
    for namespace in ["", "other", "ä \"quoted\" \\ {}"] {
        let binding = ensure_image_pull_rbac(false, namespace).unwrap().unwrap();
        assert_eq!(binding.namespace.as_deref(), Some(namespace));
        assert_eq!(binding.subjects.unwrap().len(), 1);
    }
}

#[test]
fn a_failed_creation_is_reported() {
    assert_eq!(grant_result(true, "ns"), Ok(()));
    assert_eq!(
        grant_result(false, "ns"),
        Err(OperatorError::CreateRoleBinding { namespace: "ns".to_string() })
    );
}

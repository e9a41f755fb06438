use operator_deploy::env::{
    first_env_problem, merge_env, patch_env, patch_operator_deployment_env, patch_result,
    verify_deployment_env, EnvProblem, LIFECYCLE_CONTAINER,
};
use operator_deploy::error::OperatorError;
use operator_deploy::labels::Labels;
use operator_deploy::model::{Container, Deployment, DeploymentSpec, EnvVar, PodSpec};

fn var(name: &str, value: Option<&str>, value_from: Option<u8>) -> EnvVar<u8> {
    EnvVar { name: name.to_string(), value: value.map(|v| v.to_string()), value_from }
}

fn container(name: &str, env: Option<Vec<EnvVar<u8>>>) -> Container<u8> {
    Container { name: name.to_string(), env }
}

fn deployment(containers: Vec<Container<u8>>) -> Deployment<u8> {
    let mut labels = Labels::new();
    labels.insert("app".to_string(), "op".to_string());
    Deployment {
        spec: Some(DeploymentSpec {
            match_labels: Some(labels),
            pod_spec: Some(PodSpec { containers }),
        }),
    }
}

fn containers(deployment: &Deployment<u8>) -> &Vec<Container<u8>> {
    &deployment.spec.as_ref().unwrap().pod_spec.as_ref().unwrap().containers
}

fn mappings(pairs: &[(&str, &str)]) -> Vec<(String, String)> {
    pairs.iter().map(|(k, v)| (k.to_string(), v.to_string())).collect()
}

#[test]
fn mapped_variables_are_updated_in_place_and_lose_their_source() {
    let vars = vec![var("A", Some("1"), None), var("B", None, Some(7)), var("C", None, Some(8))];
    let all = merge_env(vars, &mappings(&[("B", "new"), ("D", "added"), ("A", "2")]));
    assert_eq!(
        all,
        vec![
            var("A", Some("2"), None),
            var("B", Some("new"), None),
            var("C", None, Some(8)),
            var("D", Some("added"), None),
        ]
    );
}

#[test]
fn first_mapping_of_a_key_updates_and_all_add() {
    let twice = mappings(&[("A", "1"), ("A", "2"), ("B", "3"), ("B", "4")]);
    let all = merge_env(vec![var("A", None, None)], &twice);
    assert_eq!(
        all,
        vec![var("A", Some("1"), None), var("B", Some("3"), None), var("B", Some("4"), None)]
    );
}

#[test]
fn variables_of_one_name_are_all_updated() {
    let vars = vec![var("A", Some("1"), None), var("A", Some("2"), Some(1))];
    let all = merge_env(vars, &mappings(&[("A", "3")]));
    assert_eq!(all, vec![var("A", Some("3"), None), var("A", Some("3"), None)]);
}

#[test]
fn merging_nothing_changes_nothing() {
    let vars = vec![var("A", Some("1"), None), var("B", None, Some(7))];
    assert_eq!(merge_env(vars, &[]), vec![var("A", Some("1"), None), var("B", None, Some(7))]);
    assert_eq!(merge_env::<u8>(vec![], &[]), vec![]);
}

#[test]
fn merging_twice_is_merging_once() {
    let map = mappings(&[("A", "2"), ("D", "added")]);
    let once = merge_env(vec![var("A", Some("1"), Some(1)), var("B", None, None)], &map);
    let copy = once.iter().map(|v| var(&v.name, v.value.as_deref(), v.value_from)).collect();
    assert_eq!(merge_env(copy, &map), once);
}

#[test]
fn only_the_lifecycle_container_is_patched() {
    let before = deployment(vec![
        container("sidecar", Some(vec![var("A", Some("1"), None)])),
        container(LIFECYCLE_CONTAINER, Some(vec![var("A", Some("1"), None)])),
        container(LIFECYCLE_CONTAINER, None),
    ]);
    let after =
        patch_operator_deployment_env(Some(before), "ns", "op", &mappings(&[("A", "2")])).unwrap();
    assert_eq!(
        *containers(&after),
        vec![
            container("sidecar", Some(vec![var("A", Some("1"), None)])),
            container(LIFECYCLE_CONTAINER, Some(vec![var("A", Some("2"), None)])),
            container(LIFECYCLE_CONTAINER, None),
        ]
    );
    assert_eq!(after.spec.unwrap().match_labels.unwrap().selector(), "app=op");
}

#[test]
fn a_container_without_variables_gets_them() {
    let mut one = deployment(vec![container(LIFECYCLE_CONTAINER, None)]);
    assert_eq!(patch_env(&mut one, &mappings(&[("A", "1")])), Ok(()));
    assert_eq!(containers(&one)[0].env, Some(vec![var("A", Some("1"), None)]));
    let mut none = deployment(vec![container(LIFECYCLE_CONTAINER, None)]);
    assert_eq!(patch_env(&mut none, &[]), Ok(()));
    assert_eq!(containers(&none)[0].env, Some(vec![]));
}

#[test]
fn lifecycle_container_name() {
    assert_eq!(LIFECYCLE_CONTAINER, "openshift-pipelines-operator-lifecycle");
}

#[test]
fn nothing_to_patch_is_reported() {
    let map = mappings(&[("A", "1")]);
    let error = |reply| patch_operator_deployment_env::<u8>(reply, "ns", "op", &map).err();
    assert_eq!(
        error(None),
        Some(OperatorError::GetDeployment { namespace: "ns".to_string(), name: "op".to_string() })
    );
    assert_eq!(error(Some(Deployment { spec: None })), Some(OperatorError::NoContainers));
    let spec = DeploymentSpec { match_labels: None, pod_spec: None };
    assert_eq!(error(Some(Deployment { spec: Some(spec) })), Some(OperatorError::NoContainers));
    assert_eq!(error(Some(deployment(vec![]))), Some(OperatorError::NoLifecycleContainer));
    assert_eq!(
        error(Some(deployment(vec![container("other", None)]))),
        Some(OperatorError::NoLifecycleContainer)
    );
}

#[test]
fn a_failed_patch_leaves_the_deployment() {
    let mut one = deployment(vec![container("other", Some(vec![var("A", Some("1"), None)]))]);
    assert_eq!(patch_env(&mut one, &mappings(&[("A", "2")])), Err(OperatorError::NoLifecycleContainer));
    assert_eq!(*containers(&one), vec![container("other", Some(vec![var("A", Some("1"), None)]))]);
}

#[test]
fn a_patched_deployment_verifies() {
    let map = mappings(&[("A", "1"), ("B", "2")]);
    let before = deployment(vec![container(LIFECYCLE_CONTAINER, Some(vec![var("A", None, Some(1))]))]);
    let reply = Some(before);
    assert_eq!(verify_deployment_env(&reply, "ns", "op", &map), Ok(false));
    let after = patch_operator_deployment_env(reply, "ns", "op", &map).ok();
    assert_eq!(verify_deployment_env(&after, "ns", "op", &map), Ok(true));
}

#[test]
fn a_key_with_two_values_never_verifies() {
    let map = mappings(&[("A", "1"), ("A", "2")]);
    let before = deployment(vec![container(LIFECYCLE_CONTAINER, None)]);
    let after = patch_operator_deployment_env(Some(before), "ns", "op", &map).ok();
    assert_eq!(verify_deployment_env(&after, "ns", "op", &map), Ok(false));
}

#[test]
fn a_failed_read_is_no_verdict() {
    assert_eq!(
        verify_deployment_env::<u8>(&None, "ns", "op", &[]),
        Err(OperatorError::RereadDeployment {
            namespace: "ns".to_string(),
            name: "op".to_string(),
        })
    );
}

#[test]
fn no_mappings_verify_where_the_container_is() {
    let there = Some(deployment(vec![container(LIFECYCLE_CONTAINER, None)]));
    assert_eq!(verify_deployment_env(&there, "ns", "op", &[]), Ok(true));
    let missing = Some(deployment(vec![container("other", None)]));
    assert_eq!(verify_deployment_env(&missing, "ns", "op", &[]), Ok(false));
    let empty: Option<Deployment<u8>> = Some(Deployment { spec: None });
    assert_eq!(verify_deployment_env(&empty, "ns", "op", &[]), Ok(false));
}

#[test]
fn the_first_problem_is_told() {
    let one = deployment(vec![container(
        LIFECYCLE_CONTAINER,
        Some(vec![var("A", Some("1"), None), var("B", None, Some(1)), var("A", Some("2"), None)]),
    )]);
    assert_eq!(first_env_problem(&one, &mappings(&[("A", "1")])), None);
    assert_eq!(
        first_env_problem(&one, &mappings(&[("A", "2"), ("C", "")])),
        Some(EnvProblem::Mismatch {
            key: "A".to_string(),
            expected: "2".to_string(),
            actual: Some("1".to_string()),
        })
    );
    assert_eq!(
        first_env_problem(&one, &mappings(&[("A", "1"), ("B", "x")])),
        Some(EnvProblem::Mismatch {
            key: "B".to_string(),
            expected: "x".to_string(),
            actual: None,
        })
    );
    assert_eq!(
        first_env_problem(&one, &mappings(&[("A", "1"), ("C", "x"), ("B", "x")])),
        Some(EnvProblem::Missing { key: "C".to_string() })
    );
    assert_eq!(
        first_env_problem(&deployment(vec![]), &[]),
        Some(EnvProblem::NoLifecycleContainer)
    );
}

#[test]
fn a_failed_replacement_is_reported() {
    assert_eq!(patch_result(true, "ns", "op"), Ok(()));
    assert_eq!(
        patch_result(false, "ns", "op"),
        Err(OperatorError::UpdateDeployment {
            namespace: "ns".to_string(),
            name: "op".to_string(),
        })
    );
}

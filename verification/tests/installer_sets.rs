use operator_deploy::error::OperatorError;
use operator_deploy::installer_sets::{count_deleted, delete_installer_sets};

fn names(list: &[&str]) -> Option<Vec<Option<String>>> {
    Some(list.iter().map(|n| Some(n.to_string())).collect())
}

#[test]
fn sets_of_the_component_are_deleted_in_their_order() {
    let reply = names(&[
        "pipeline-pre-x",
        "pipeline-main-deployment-abc",
        "trigger-main-deployment-abc",
        "pipeline-main-static-abc",
        "pipeline-post-abc",
        "pipeline-main-abc",
        "my-pipeline-pre-x",
        "pipelines-pre-x",
        "pipeline-pre-",
        "pipeline-pre",
    ]);
    assert_eq!(
        delete_installer_sets(reply, "pipeline", None).unwrap(),
        [
            "pipeline-pre-x",
            "pipeline-main-deployment-abc",
            "pipeline-main-static-abc",
            "pipeline-post-abc",
            "pipeline-pre-",
        ]
    );
}

#[test]
fn a_given_prefix_takes_the_place_of_the_component() {
    let reply = || names(&["manual-approval-gate-pre-1", "manualapprovalgate-pre-1"]);
    assert_eq!(
        delete_installer_sets(reply(), "manual-approval-gate", Some("manualapprovalgate")).unwrap(),
        ["manualapprovalgate-pre-1"]
    );
    assert_eq!(
        delete_installer_sets(reply(), "manual-approval-gate", None).unwrap(),
        ["manual-approval-gate-pre-1"]
    );
    assert_eq!(
        delete_installer_sets(reply(), "x", Some("manualapprovalgate")).unwrap(),
        ["manualapprovalgate-pre-1"]
    );
}

#[test]
fn sets_without_a_name_are_passed_over() {
    let reply = Some(vec![None, Some("pipeline-post-1".to_string()), None]);
    assert_eq!(delete_installer_sets(reply, "pipeline", None).unwrap(), ["pipeline-post-1"]);
}

#[test]
fn empty_prefix() {
    assert_eq!(
        delete_installer_sets(names(&["-pre-1", "pre-1"]), "pipeline", Some("")).unwrap(),
        ["-pre-1"]
    );
}

#[test]
fn failed_listing_of_sets_is_reported() {
    assert_eq!(
        delete_installer_sets(None, "pipeline", None),
        Err(OperatorError::ListInstallerSets)
    );
}

#[test]
fn only_good_deletions_count() {
    assert_eq!(count_deleted(&vec![]), 0);
    assert_eq!(count_deleted(&vec![true, false, true, true, false]), 3);
    assert_eq!(count_deleted(&vec![false]), 0);
}

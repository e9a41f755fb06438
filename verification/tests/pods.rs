use operator_deploy::model::{Pod, PodCondition, PodStatus};
use operator_deploy::pods::{find_replacement, is_pod_ready, pod_names};

fn pod(name: Option<&str>, phase: Option<&str>, conditions: Option<&[(&str, &str)]>) -> Pod {
    Pod {
        name: name.map(|n| n.to_string()),
        status: Some(PodStatus {
            phase: phase.map(|p| p.to_string()),
            conditions: conditions.map(|list| {
                list.iter()
                    .map(|(t, s)| PodCondition { type_: t.to_string(), status: s.to_string() })
                    .collect()
            }),
        }),
    }
}

fn good(name: &str) -> Pod {
    pod(Some(name), Some("Running"), Some(&[("Ready", "True")]))
}

#[test]
fn running_and_ready() {
    assert!(is_pod_ready(&good("a")));
    let late: &[(&str, &str)] = &[("PodScheduled", "True"), ("Ready", "False"), ("Ready", "True")];
    assert!(is_pod_ready(&pod(None, Some("Running"), Some(late))));
}

#[test]
fn not_ready() {
    assert!(!is_pod_ready(&Pod { name: None, status: None }));
    assert!(!is_pod_ready(&pod(None, None, Some(&[("Ready", "True")]))));
    assert!(!is_pod_ready(&pod(None, Some("Pending"), Some(&[("Ready", "True")]))));
    assert!(!is_pod_ready(&pod(None, Some("running"), Some(&[("Ready", "True")]))));
    assert!(!is_pod_ready(&pod(None, Some("Running"), None)));
    assert!(!is_pod_ready(&pod(None, Some("Running"), Some(&[]))));
    assert!(!is_pod_ready(&pod(None, Some("Running"), Some(&[("Ready", "False")]))));
    assert!(!is_pod_ready(&pod(None, Some("Running"), Some(&[("Initialized", "True")]))));
}

#[test]
fn names_of_pods_that_have_one() {
    assert_eq!(pod_names(&vec![good("b"), pod(None, None, None), good("a")]), ["b", "a"]);
    assert_eq!(pod_names(&vec![pod(None, None, None)]).len(), 0);
}

#[test]
fn first_new_ready_pod_is_the_replacement() {
    let old = vec!["a".to_string()];
    let list = vec![
        good("a"),
        pod(Some("b"), Some("Pending"), None),
        pod(None, Some("Running"), Some(&[("Ready", "True")])),
        good("c"),
        good("d"),
    ];
    assert_eq!(find_replacement(&list, &old), Some("c".to_string()));
}

#[test]
fn pods_do_not_replace_themselves() {
    let list = vec![good("a"), good("b")];
    let old = pod_names(&list);
    assert_eq!(find_replacement(&list, &old), None);
    assert_eq!(find_replacement(&vec![], &old), None);
}

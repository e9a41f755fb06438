use operator_deploy::error::OperatorError;
use operator_deploy::search::{
    find_operator_deployment, operator_deployment_names, operator_label_selectors,
    operator_namespaces, OperatorSearch, Probe, Reply, SearchStep, NAME_PROBES, PROBES,
};

fn get(namespace: &str, name: &str) -> Probe {
    Probe::Get { namespace: namespace.to_string(), name: name.to_string() }
}

fn list(namespace: &str, selector: &str) -> Probe {
    Probe::List { namespace: namespace.to_string(), selector: selector.to_string() }
}

/// Runs a search in which `answer` replies, and gives back the requests and the end.
fn run(answer: fn(usize) -> Reply) -> (Vec<Probe>, Result<(String, String), OperatorError>) {
    let mut search = OperatorSearch::start();
    let mut asked = Vec::new();
    loop {
        asked.push(search.probe());
        match find_operator_deployment(search, answer(asked.len() - 1)) {
            SearchStep::Ask(next) => search = next,
            SearchStep::Found { namespace, name } => return (asked, Ok((namespace, name))),
            SearchStep::Failed(error) => return (asked, Err(error)),
        }
    }
}

fn nothing(_: usize) -> Reply {
    Some(vec![])
}

#[test]
fn known_places() {
    assert_eq!(
        operator_namespaces(),
        ["openshift-pipelines", "openshift-operators", "tekton-pipelines"]
    );
    assert_eq!(operator_deployment_names(), ["openshift-pipelines-operator", "tekton-operator"]);
    assert_eq!(
        operator_label_selectors(),
        ["app.kubernetes.io/name=openshift-pipelines-operator", "app=tekton-operator"]
    );
}

#[test]
fn requests_come_in_order_and_none_twice() {
    let (asked, _) = run(nothing);
    let mut expected = Vec::new();
    for ns in ["openshift-pipelines", "openshift-operators", "tekton-pipelines"] {
        expected.push(get(ns, "openshift-pipelines-operator"));
        expected.push(get(ns, "tekton-operator"));
    }
    for ns in ["openshift-pipelines", "openshift-operators", "tekton-pipelines"] {
        expected.push(list(ns, "app.kubernetes.io/name=openshift-pipelines-operator"));
        expected.push(list(ns, "app=tekton-operator"));
    }
    assert_eq!(asked, expected);
    assert_eq!(asked.len(), PROBES);
    assert_eq!(NAME_PROBES, 6);
    for i in 0..asked.len() {
        for j in 0..i {
            assert_ne!(asked[i], asked[j]);
        }
    }
}

#[test]
fn nothing_found_tells_what_was_tried() {
    let (_, end) = run(nothing);
    assert_eq!(
        end.unwrap_err().message(),
        "Operator controller deployment not found.\n\
         Checked namespaces: openshift-pipelines, openshift-operators, tekton-pipelines\n\
         Checked names: openshift-pipelines-operator, tekton-operator\n\
         Checked labels: app.kubernetes.io/name=openshift-pipelines-operator, app=tekton-operator"
    );
}

#[test]
fn failed_reads_by_name_are_passed_over() {
    fn answer(i: usize) -> Reply {
        if i == 3 { Some(vec![Some("tekton-operator".to_string())]) } else { None }
    }
    let (asked, end) = run(answer);
    assert_eq!(asked.len(), 4);
    assert_eq!(end, Ok(("openshift-operators".to_string(), "tekton-operator".to_string())));
}

#[test]
fn failed_listing_ends_the_search() {
    fn answer(i: usize) -> Reply {
        if i == 8 { None } else { Some(vec![]) }
    }
    let (asked, end) = run(answer);
    assert_eq!(asked.len(), 9);
    assert_eq!(
        end,
        Err(OperatorError::ListDeployments { namespace: "openshift-operators".to_string() })
    );
}

#[test]
fn first_listed_deployment_counts() {
    fn answer(i: usize) -> Reply {
        if i == 7 {
            Some(vec![Some("first".to_string()), Some("second".to_string())])
        } else {
            Some(vec![])
        }
    }
    let (_, end) = run(answer);
    assert_eq!(end, Ok(("openshift-pipelines".to_string(), "first".to_string())));
}

#[test]
fn first_listed_deployment_without_a_name_does_not_count() {
    fn answer(i: usize) -> Reply {
        match i {
            0 => Some(vec![None]),
            6 => Some(vec![None, Some("second".to_string())]),
            11 => Some(vec![Some("last".to_string())]),
            _ => Some(vec![]),
        }
    }
    let (asked, end) = run(answer);
    assert_eq!(asked.len(), 12);
    assert_eq!(end, Ok(("tekton-pipelines".to_string(), "last".to_string())));
}

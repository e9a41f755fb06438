//! What the search for the operator's Deployment promises.

use vstd::prelude::*;

use crate::error::{Failure, OperatorError};
use crate::search;
use crate::search::{OperatorSearch, Probe, ProbeView, SearchStep, SearchStepView};
use crate::text;

verus! {

/// The requests, in their order: the two names in each of the three namespaces, and then
/// the two selectors in each of them.
pub proof fn law_requests_in_order()
    ensures
        search::PROBES == 12,
        search::probe_at(0) == (ProbeView::Get {
            namespace: "openshift-pipelines"@,
            name: "openshift-pipelines-operator"@,
        }),
        search::probe_at(1) == (ProbeView::Get {
            namespace: "openshift-pipelines"@,
            name: "tekton-operator"@,
        }),
        search::probe_at(2) == (ProbeView::Get {
            namespace: "openshift-operators"@,
            name: "openshift-pipelines-operator"@,
        }),
        search::probe_at(3) == (ProbeView::Get {
            namespace: "openshift-operators"@,
            name: "tekton-operator"@,
        }),
        search::probe_at(4) == (ProbeView::Get {
            namespace: "tekton-pipelines"@,
            name: "openshift-pipelines-operator"@,
        }),
        search::probe_at(5) == (ProbeView::Get {
            namespace: "tekton-pipelines"@,
            name: "tekton-operator"@,
        }),
        search::probe_at(6) == (ProbeView::List {
            namespace: "openshift-pipelines"@,
            selector: "app.kubernetes.io/name=openshift-pipelines-operator"@,
        }),
        search::probe_at(7) == (ProbeView::List {
            namespace: "openshift-pipelines"@,
            selector: "app=tekton-operator"@,
        }),
        search::probe_at(8) == (ProbeView::List {
            namespace: "openshift-operators"@,
            selector: "app.kubernetes.io/name=openshift-pipelines-operator"@,
        }),
        search::probe_at(9) == (ProbeView::List {
            namespace: "openshift-operators"@,
            selector: "app=tekton-operator"@,
        }),
        search::probe_at(10) == (ProbeView::List {
            namespace: "tekton-pipelines"@,
            selector: "app.kubernetes.io/name=openshift-pipelines-operator"@,
        }),
        search::probe_at(11) == (ProbeView::List {
            namespace: "tekton-pipelines"@,
            selector: "app=tekton-operator"@,
        }),
{
}

/// A Deployment is found where it was asked for: a reply whose first Deployment has a
/// name ends the search with that name, and with the namespace of the very request that
/// it answers. No other reply finds anything.
pub proof fn law_found_where_it_was_asked_for(
    position: int,
    reply: Option<Seq<Option<Seq<char>>>>,
)
    requires
        0 <= position < 12,
    ensures
        search::next_step(position, reply) matches SearchStepView::Found { namespace, name } ==> {
            &&& namespace == match search::probe_at(position) {
                ProbeView::Get { namespace, .. } => namespace,
                ProbeView::List { namespace, .. } => namespace,
            }
            &&& reply is Some && reply->0.len() > 0 && reply->0[0] == Some(name)
        },
        reply is Some && reply->0.len() > 0 && reply->0[0] is Some ==> search::next_step(
            position,
            reply,
        ) is Found,
{
}

/// A reply that finds nothing leads to the next request, but for a failed listing, which
/// is reported with its namespace, and for the last request, after which all that was
/// tried is reported.
pub proof fn law_search_goes_on(position: int, reply: Option<Seq<Option<Seq<char>>>>)
    requires
        0 <= position < 12,
        reply matches Some(names) ==> names.len() == 0 || names[0] is None,
    ensures
        reply is None && search::probe_at(position) is List ==> search::next_step(position, reply)
            == (SearchStepView::Failed {
            error: Failure::ListDeployments {
                namespace: search::probe_at(position)->List_namespace,
            },
        }),
        (reply is Some || search::probe_at(position) is Get) && position < 11 ==> search::next_step(
            position,
            reply,
        ) == (SearchStepView::Ask { position: position + 1 }),
        reply is Some && position == 11 ==> search::next_step(position, reply) == (
        SearchStepView::Failed {
            error: Failure::DeploymentNotFound {
                namespaces: "openshift-pipelines"@ + ", "@ + "openshift-operators"@ + ", "@
                    + "tekton-pipelines"@,
                names: "openshift-pipelines-operator"@ + ", "@ + "tekton-operator"@,
                labels: "app.kubernetes.io/name=openshift-pipelines-operator"@ + ", "@
                    + "app=tekton-operator"@,
            },
        }),
{
    let places = search::namespaces();
    assert(places.drop_last().drop_last() =~= seq!["openshift-pipelines"@]);
    assert(places.drop_last().last() == "openshift-operators"@);
    assert(text::joined(places.drop_last().drop_last(), ", "@) == "openshift-pipelines"@);
    assert(text::joined(places.drop_last(), ", "@) == "openshift-pipelines"@ + ", "@
        + "openshift-operators"@);
    let names = search::deployment_names();
    assert(names.drop_last() =~= seq!["openshift-pipelines-operator"@]);
    assert(text::joined(names.drop_last(), ", "@) == "openshift-pipelines-operator"@);
    let labels = search::label_selectors();
    assert(labels.drop_last()
        =~= seq!["app.kubernetes.io/name=openshift-pipelines-operator"@]);
    assert(text::joined(labels.drop_last(), ", "@)
        == "app.kubernetes.io/name=openshift-pipelines-operator"@);
    assert(text::joined(places, ", "@) == "openshift-pipelines"@ + ", "@ + "openshift-operators"@
        + ", "@ + "tekton-pipelines"@);
    assert(text::joined(names, ", "@) == "openshift-pipelines-operator"@ + ", "@
        + "tekton-operator"@);
    assert(text::joined(labels, ", "@)
        == "app.kubernetes.io/name=openshift-pipelines-operator"@ + ", "@
        + "app=tekton-operator"@);
}

/// A whole search finds the Deployment of the first request, in their order, that brings
/// one with a name, if no listing before it failed: by that name, in the namespace that
/// this request asked in.
pub proof fn law_first_hit_is_found(
    replies: spec_fn(int) -> Option<Seq<Option<Seq<char>>>>,
    hit: int,
    name: Seq<char>,
)
    requires
        0 <= hit < 12,
        replies(hit) matches Some(names) && names.len() > 0 && names[0] == Some(name),
        forall|j: int|
            0 <= j < hit ==> match #[trigger] replies(j) {
                Some(names) => names.len() == 0 || names[0] is None,
                None => search::probe_at(j) is Get,
            },
    ensures
        search::outcome(0, replies) == (SearchStepView::Found {
            namespace: match search::probe_at(hit) {
                ProbeView::Get { namespace, .. } => namespace,
                ProbeView::List { namespace, .. } => namespace,
            },
            name,
        }),
{
    lemma_walk(0, hit, replies);
    law_found_where_it_was_asked_for(hit, replies(hit));
}

proof fn lemma_walk(
    from: int,
    to: int,
    replies: spec_fn(int) -> Option<Seq<Option<Seq<char>>>>,
)
    requires
        0 <= from <= to < 12,
        forall|j: int|
            from <= j < to ==> match #[trigger] replies(j) {
                Some(names) => names.len() == 0 || names[0] is None,
                None => search::probe_at(j) is Get,
            },
    ensures
        search::outcome(from, replies) == search::outcome(to, replies),
    decreases to - from,
{
    if from < to {
        let reply = replies(from);
        law_search_goes_on(from, reply);
        lemma_walk(from + 1, to, replies);
    }
}

/// The model of a reply has every name, in its order.
pub proof fn law_reply_is_kept(names: Vec<Option<String>>)
    ensures
        search::reply_view(None) is None,
        search::reply_view(Some(names)) matches Some(list) && list.len() == names@.len()
            && forall|i: int|
            0 <= i < list.len() ==> match #[trigger] names@[i] {
                Some(name) => list[i] == Some(name@),
                None => list[i] is None,
            },
{
}

/// The models of requests and of what follows from a reply have all that is in them.
pub proof fn law_steps_are_kept(
    namespace: String,
    name: String,
    next: OperatorSearch,
    error: OperatorError,
)
    ensures
        (Probe::Get { namespace, name })@ == (ProbeView::Get {
            namespace: namespace@,
            name: name@,
        }),
        (Probe::List { namespace, selector: name })@ == (ProbeView::List {
            namespace: namespace@,
            selector: name@,
        }),
        (SearchStep::Ask(next))@ == (SearchStepView::Ask { position: next.position() }),
        (SearchStep::Found { namespace, name })@ == (SearchStepView::Found {
            namespace: namespace@,
            name: name@,
        }),
        (SearchStep::Failed(error))@ == (SearchStepView::Failed { error: error@ }),
{
}

} // verus!

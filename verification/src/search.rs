//! Where the operator's controller Deployment is.
//!
//! Known names are asked for first, then known label selectors, each in every known
//! namespace. One request is pending at a time; the reply to it decides what is next.

use vstd::prelude::*;

use crate::error::{Failure, OperatorError};
use crate::text;

verus! {

/// The namespaces where the operator's Deployment may live.
pub open spec fn namespaces() -> Seq<Seq<char>> {
    seq!["openshift-pipelines"@, "openshift-operators"@, "tekton-pipelines"@]
}

/// The names that the operator's Deployment may have.
pub open spec fn deployment_names() -> Seq<Seq<char>> {
    seq!["openshift-pipelines-operator"@, "tekton-operator"@]
}

/// The label selectors that may match the operator's Deployment.
pub open spec fn label_selectors() -> Seq<Seq<char>> {
    seq!["app.kubernetes.io/name=openshift-pipelines-operator"@, "app=tekton-operator"@]
}

/// The namespaces where the operator's Deployment may live.
pub fn operator_namespaces() -> (list: Vec<String>)
    ensures
        text::texts(list@) == namespaces(),
{
    let mut list: Vec<String> = Vec::new();
    list.push("openshift-pipelines".to_owned());
    list.push("openshift-operators".to_owned());
    list.push("tekton-pipelines".to_owned());
    assert(text::texts(list@) =~= namespaces());
    list
}

/// The names that the operator's Deployment may have.
pub fn operator_deployment_names() -> (list: Vec<String>)
    ensures
        text::texts(list@) == deployment_names(),
{
    let mut list: Vec<String> = Vec::new();
    list.push("openshift-pipelines-operator".to_owned());
    list.push("tekton-operator".to_owned());
    assert(text::texts(list@) =~= deployment_names());
    list
}

/// The label selectors that may match the operator's Deployment.
pub fn operator_label_selectors() -> (list: Vec<String>)
    ensures
        text::texts(list@) == label_selectors(),
{
    let mut list: Vec<String> = Vec::new();
    list.push("app.kubernetes.io/name=openshift-pipelines-operator".to_owned());
    list.push("app=tekton-operator".to_owned());
    assert(text::texts(list@) =~= label_selectors());
    list
}

/// A request of the search.
#[derive(Debug, PartialEq, Eq)]
pub enum Probe {
    /// Read the Deployment `name`.
    Get { namespace: String, name: String },
    /// List the Deployments that `selector` matches.
    List { namespace: String, selector: String },
}

/// Model of a [`Probe`].
pub enum ProbeView {
    Get { namespace: Seq<char>, name: Seq<char> },
    List { namespace: Seq<char>, selector: Seq<char> },
}

impl View for Probe {
    type V = ProbeView;

    open spec fn view(&self) -> ProbeView {
        match self {
            Probe::Get { namespace, name } => ProbeView::Get {
                namespace: namespace@,
                name: name@,
            },
            Probe::List { namespace, selector } => ProbeView::List {
                namespace: namespace@,
                selector: selector@,
            },
        }
    }
}

/// How many requests there are for names.
pub const NAME_PROBES: usize = 6;

/// How many requests there are.
pub const PROBES: usize = 12;

/// The namespace of the request at `position`.
pub open spec fn namespace_at(position: int) -> Seq<char> {
    namespaces()[position % 6 / 2]
}

/// The request at `position`: by name first, then by label; the namespaces in their
/// order, and in each the names or the selectors in theirs.
pub open spec fn probe_at(position: int) -> ProbeView {
    if position < NAME_PROBES {
        ProbeView::Get {
            namespace: namespace_at(position),
            name: deployment_names()[position % 2],
        }
    } else {
        ProbeView::List {
            namespace: namespace_at(position),
            selector: label_selectors()[position % 2],
        }
    }
}

/// The names of the Deployments that a request brought, in their order: one for a
/// Deployment that was read. Nothing where the request failed.
pub type Reply = Option<Vec<Option<String>>>;

/// Model of a [`Reply`].
pub open spec fn reply_view(reply: Reply) -> Option<Seq<Option<Seq<char>>>> {
    match reply {
        Some(names) => Some(Seq::new(names@.len(), |i: int| text::opt_text(names@[i]))),
        None => None,
    }
}

/// The name of the first Deployment that a request brought.
pub open spec fn first_name(reply: Option<Seq<Option<Seq<char>>>>) -> Option<Seq<char>> {
    match reply {
        Some(names) => if names.len() > 0 {
            names[0]
        } else {
            None
        },
        None => None,
    }
}

/// A search for the operator's Deployment, with one request pending.
pub struct OperatorSearch {
    position: usize,
}

/// What follows from a reply.
pub enum SearchStep {
    /// The search goes on with its next request.
    Ask(OperatorSearch),
    /// The Deployment is found.
    Found { namespace: String, name: String },
    /// The search fails.
    Failed(OperatorError),
}

/// Model of a [`SearchStep`].
pub enum SearchStepView {
    Ask { position: int },
    Found { namespace: Seq<char>, name: Seq<char> },
    Failed { error: Failure<Seq<char>> },
}

/// No known place holds the Deployment; the places that were tried.
pub open spec fn not_found() -> Failure<Seq<char>> {
    Failure::DeploymentNotFound {
        namespaces: text::joined(namespaces(), ", "@),
        names: text::joined(deployment_names(), ", "@),
        labels: text::joined(label_selectors(), ", "@),
    }
}

impl View for SearchStep {
    type V = SearchStepView;

    open spec fn view(&self) -> SearchStepView {
        match self {
            SearchStep::Ask(search) => SearchStepView::Ask { position: search.position() },
            SearchStep::Found { namespace, name } => SearchStepView::Found {
                namespace: namespace@,
                name: name@,
            },
            SearchStep::Failed(error) => SearchStepView::Failed { error: error@ },
        }
    }
}

/// What follows from the reply to the request at `position`.
///
/// A reply whose first Deployment has a name ends the search. A failed request by
/// label ends it too; one by name only shows that nothing is there.
pub open spec fn next_step(
    position: int,
    reply: Option<Seq<Option<Seq<char>>>>,
) -> SearchStepView {
    match first_name(reply) {
        Some(name) => SearchStepView::Found { namespace: namespace_at(position), name },
        None => if reply is None && position >= NAME_PROBES {
            SearchStepView::Failed {
                error: Failure::ListDeployments { namespace: namespace_at(position) },
            }
        } else if position + 1 < PROBES {
            SearchStepView::Ask { position: position + 1 }
        } else {
            SearchStepView::Failed { error: not_found() }
        },
    }
}

impl OperatorSearch {
    #[verifier::type_invariant]
    spec fn in_range(self) -> bool {
        self.position < PROBES
    }

    /// How many requests were answered.
    pub closed spec fn position(self) -> int {
        self.position as int
    }

    /// A search with its first request pending.
    pub fn start() -> (search: OperatorSearch)
        ensures
            search.position() == 0,
    {
        OperatorSearch { position: 0 }
    }

    /// The namespace of the pending request.
    fn namespace(&self) -> (namespace: String)
        ensures
            namespace@ == namespace_at(self.position()),
    {
        proof {
            use_type_invariant(self);
        }
        let list: Vec<String> = operator_namespaces();
        let i: usize = self.position % 6 / 2;
        assert(text::texts(list@).len() == 3);
        assert(text::texts(list@)[i as int] == namespaces()[i as int]);
        list[i].clone()
    }

    /// The pending request.
    pub fn probe(&self) -> (probe: Probe)
        ensures
            probe@ == probe_at(self.position()),
    {
        let namespace: String = self.namespace();
        let i: usize = self.position % 2;
        if self.position < NAME_PROBES {
            let list: Vec<String> = operator_deployment_names();
            assert(text::texts(list@).len() == 2);
            assert(text::texts(list@)[i as int] == deployment_names()[i as int]);
            Probe::Get { namespace: namespace, name: list[i].clone() }
        } else {
            let list: Vec<String> = operator_label_selectors();
            assert(text::texts(list@).len() == 2);
            assert(text::texts(list@)[i as int] == label_selectors()[i as int]);
            Probe::List { namespace: namespace, selector: list[i].clone() }
        }
    }
}

/// Find the operator controller deployment by checking known namespaces, names and
/// label selectors: what follows from the reply to the pending request.
pub fn find_operator_deployment(search: OperatorSearch, reply: Reply) -> (step: SearchStep)
    ensures
        step@ == next_step(search.position(), reply_view(reply)),
{
    proof {
        use_type_invariant(&search);
    }
    let failed: bool = reply.is_none();
    let ghost model = reply_view(reply);
    match reply {
        Some(names) => {
            if names.len() > 0 {
                match &names[0] {
                    Some(name) => {
                        assert(first_name(model) == Some(name@));
                        return SearchStep::Found {
                            namespace: search.namespace(),
                            name: name.clone(),
                        };
                    },
                    None => {},
                }
            }
        },
        None => {},
    }
    assert(first_name(model) is None);
    if failed && search.position >= NAME_PROBES {
        return SearchStep::Failed(
            Failure::ListDeployments { namespace: search.namespace() },
        );
    }
    if search.position + 1 < PROBES {
        return SearchStep::Ask(OperatorSearch { position: search.position + 1 });
    }
    let tried: Vec<String> = operator_namespaces();
    let names: Vec<String> = operator_deployment_names();
    let labels: Vec<String> = operator_label_selectors();
    SearchStep::Failed(
        Failure::DeploymentNotFound {
            namespaces: text::join(tried.as_slice(), ", "),
            names: text::join(names.as_slice(), ", "),
            labels: text::join(labels.as_slice(), ", "),
        },
    )
}

/// The end of a search from `position` on, where `replies` answers each request.
pub open spec fn outcome(
    position: int,
    replies: spec_fn(int) -> Option<Seq<Option<Seq<char>>>>,
) -> SearchStepView
    decreases PROBES - position,
{
    match next_step(position, replies(position)) {
        SearchStepView::Ask { position: next } => outcome(next, replies),
        end => end,
    }
}

/// The reply to the request at `position` ends the search before the last request.
pub open spec fn decides(position: int, reply: Option<Seq<Option<Seq<char>>>>) -> bool {
    first_name(reply) is Some || (reply is None && position >= NAME_PROBES)
}

/// The first reply that decides, in the order of the requests, is the outcome of the
/// search; where none does, the Deployment is not found.
pub proof fn law_first_decisive_reply_wins(
    replies: spec_fn(int) -> Option<Seq<Option<Seq<char>>>>,
)
    ensures
        forall|k: int|
            0 <= k < PROBES && decides(k, #[trigger] replies(k)) && (forall|j: int|
                0 <= j < k ==> !decides(j, #[trigger] replies(j))) ==> outcome(0, replies)
                == next_step(k, replies(k)),
        (forall|k: int| 0 <= k < PROBES ==> !decides(k, #[trigger] replies(k))) ==> outcome(
            0,
            replies,
        ) == (SearchStepView::Failed { error: not_found() }),
{
    assert forall|k: int|
        0 <= k < PROBES && decides(k, #[trigger] replies(k)) && (forall|j: int|
            0 <= j < k ==> !decides(j, #[trigger] replies(j))) implies outcome(0, replies)
        == next_step(k, replies(k)) by {
        lemma_outcome_at(0, k, replies);
    }
    if forall|k: int| 0 <= k < PROBES ==> !decides(k, #[trigger] replies(k)) {
        lemma_outcome_at(0, PROBES - 1, replies);
    }
}

/// Replies that decide nothing lead from one request to a later one.
proof fn lemma_outcome_at(
    from: int,
    to: int,
    replies: spec_fn(int) -> Option<Seq<Option<Seq<char>>>>,
)
    requires
        0 <= from <= to < PROBES,
        forall|j: int| from <= j < to ==> !decides(j, #[trigger] replies(j)),
    ensures
        next_step(to, replies(to)) !is Ask ==> outcome(from, replies) == next_step(
            to,
            replies(to),
        ),
    decreases to - from,
{
    if from < to {
        assert(!decides(from, replies(from)));
        lemma_outcome_at(from + 1, to, replies);
    }
}

/// A Deployment is only ever found in a known namespace, and a search asks at most
/// once for each name and each selector in each namespace: no two requests are equal.
pub proof fn law_requests_are_known_and_distinct(a: int, b: int)
    requires
        0 <= a < b < PROBES,
    ensures
        probe_at(a) != probe_at(b),
        namespaces().contains(namespace_at(a)),
        namespaces().contains(namespace_at(b)),
{
    reveal_strlit("openshift-pipelines");
    reveal_strlit("openshift-operators");
    reveal_strlit("tekton-pipelines");
    reveal_strlit("openshift-pipelines-operator");
    reveal_strlit("tekton-operator");
    reveal_strlit("app.kubernetes.io/name=openshift-pipelines-operator");
    reveal_strlit("app=tekton-operator");
    assert(namespaces()[0].len() == 19);
    assert(namespaces()[1].len() == 19);
    assert(namespaces()[2].len() == 16);
    assert(namespaces()[0][10] != namespaces()[1][10]);
    assert(deployment_names()[0].len() != deployment_names()[1].len());
    assert(label_selectors()[0].len() != label_selectors()[1].len());
    assert(namespaces()[a % 6 / 2] == namespace_at(a));
    assert(namespaces()[b % 6 / 2] == namespace_at(b));
}

} // verus!

//! Who may pull the upstream images.

use vstd::prelude::*;

use crate::error::{Failure, OperatorError};
use crate::json;
use crate::text;

verus! {

/// The role that a binding grants.
#[derive(Debug, PartialEq, Eq)]
pub struct RoleRef {
    pub api_group: String,
    pub kind: String,
    pub name: String,
}

/// Whom a binding grants it to.
#[derive(Debug, PartialEq, Eq)]
pub struct Subject {
    pub api_group: Option<String>,
    pub kind: String,
    pub name: String,
    pub namespace: Option<String>,
}

/// A grant of a role in a namespace.
#[derive(Debug, PartialEq, Eq)]
pub struct RoleBinding {
    pub name: Option<String>,
    pub namespace: Option<String>,
    pub role_ref: RoleRef,
    pub subjects: Option<Vec<Subject>>,
}

/// Model of a [`RoleRef`].
pub struct RoleRefView {
    pub api_group: Seq<char>,
    pub kind: Seq<char>,
    pub name: Seq<char>,
}

/// Model of a [`Subject`].
pub struct SubjectView {
    pub api_group: Option<Seq<char>>,
    pub kind: Seq<char>,
    pub name: Seq<char>,
    pub namespace: Option<Seq<char>>,
}

/// Model of a [`RoleBinding`].
pub struct RoleBindingView {
    pub name: Option<Seq<char>>,
    pub namespace: Option<Seq<char>>,
    pub role_ref: RoleRefView,
    pub subjects: Option<Seq<SubjectView>>,
}

impl View for RoleRef {
    type V = RoleRefView;

    open spec fn view(&self) -> RoleRefView {
        RoleRefView { api_group: self.api_group@, kind: self.kind@, name: self.name@ }
    }
}

impl View for Subject {
    type V = SubjectView;

    open spec fn view(&self) -> SubjectView {
        SubjectView {
            api_group: text::opt_text(self.api_group),
            kind: self.kind@,
            name: self.name@,
            namespace: text::opt_text(self.namespace),
        }
    }
}

impl View for RoleBinding {
    type V = RoleBindingView;

    open spec fn view(&self) -> RoleBindingView {
        RoleBindingView {
            name: text::opt_text(self.name),
            namespace: text::opt_text(self.namespace),
            role_ref: self.role_ref@,
            subjects: match self.subjects {
                Some(list) => Some(Seq::new(list@.len(), |i: int| list@[i]@)),
                None => None,
            },
        }
    }
}

/// What the manifest of a RoleBinding spells out.
pub struct Grant {
    pub name: Seq<char>,
    pub namespace: Seq<char>,
    pub role: RoleRefView,
    pub subjects: Seq<RoleRefView>,
}

/// A reference to a role or a subject, as a manifest writes it.
pub open spec fn reference_json(reference: RoleRefView) -> json::Json {
    json::Json::Object(
        map![
            "apiGroup"@ => json::Json::Text(reference.api_group),
            "kind"@ => json::Json::Text(reference.kind),
            "name"@ => json::Json::Text(reference.name),
        ],
    )
}

/// The manifest of a RoleBinding.
pub open spec fn manifest_json(grant: Grant) -> json::Json {
    json::Json::Object(
        map![
            "apiVersion"@ => json::Json::Text("rbac.authorization.k8s.io/v1"@),
            "kind"@ => json::Json::Text("RoleBinding"@),
            "metadata"@ => json::Json::Object(
                map![
                    "name"@ => json::Json::Text(grant.name),
                    "namespace"@ => json::Json::Text(grant.namespace),
                ],
            ),
            "roleRef"@ => reference_json(grant.role),
            "subjects"@ => json::Json::List(
                Seq::new(grant.subjects.len(), |i: int| reference_json(grant.subjects[i])),
            ),
        ],
    )
}

/// The RoleBinding that `grant` spells out.
pub open spec fn binding_of(grant: Grant) -> RoleBindingView {
    RoleBindingView {
        name: Some(grant.name),
        namespace: Some(grant.namespace),
        role_ref: grant.role,
        subjects: Some(
            Seq::new(
                grant.subjects.len(),
                |i: int|
                    SubjectView {
                        api_group: Some(grant.subjects[i].api_group),
                        kind: grant.subjects[i].kind,
                        name: grant.subjects[i].name,
                        namespace: None,
                    },
            ),
        ),
    }
}

/// The RoleBinding that was read, if one was.
pub open spec fn binding_view(result: Result<RoleBinding, serde_json::Error>) -> Option<
    RoleBindingView,
> {
    match result {
        Ok(binding) => Some(binding@),
        Err(_) => None,
    }
}

/// The RoleBinding that a JSON value reads as; nothing where it is refused.
pub uninterp spec fn read_as_binding(value: json::Json) -> Option<RoleBindingView>;

/// `serde_json::from_value`, at `k8s_openapi::api::rbac::v1::RoleBinding`: the
/// RoleBinding that the value reads as. A manifest that spells out a grant in full reads
/// as the RoleBinding with just that in it.
#[verifier::external_body]
fn from_value(value: serde_json::Value) -> (result: Result<RoleBinding, serde_json::Error>)
    ensures
        binding_view(result) == read_as_binding(json::held(value)),
        forall|grant: Grant| #[trigger]
            manifest_json(grant) == json::held(value) ==> binding_view(result) == Some(
                binding_of(grant),
            ),
{
    let b: k8s_openapi::api::rbac::v1::RoleBinding = serde_json::from_value(value)?;
    let r: k8s_openapi::api::rbac::v1::RoleRef = b.role_ref;
    Ok(RoleBinding {
        name: b.metadata.name,
        namespace: b.metadata.namespace,
        role_ref: RoleRef { api_group: r.api_group, kind: r.kind, name: r.name },
        subjects: b.subjects.map(|list| list.into_iter().map(|s| Subject {
            api_group: s.api_group, kind: s.kind, name: s.name, namespace: s.namespace,
        }).collect()),
    })
}

/// The name of the RoleBinding that lets everyone pull.
pub const PULLER_BINDING: &'static str = "image-puller-all-authenticated";

/// The group that roles, and groups of users, are in.
pub const RBAC_GROUP: &'static str = "rbac.authorization.k8s.io";

/// All authenticated users may pull images in `namespace`.
pub open spec fn pull_grant(namespace: Seq<char>) -> Grant {
    Grant {
        name: PULLER_BINDING@,
        namespace,
        role: RoleRefView {
            api_group: RBAC_GROUP@,
            kind: "ClusterRole"@,
            name: "system:image-puller"@,
        },
        subjects: seq![
            RoleRefView {
                api_group: RBAC_GROUP@,
                kind: "Group"@,
                name: "system:authenticated"@,
            },
        ],
    }
}

/// A reference to a role or a subject, as a manifest writes it.
fn reference(kind: &str, name: &str) -> (value: serde_json::Value)
    ensures
        json::held(value) == reference_json(
            RoleRefView { api_group: RBAC_GROUP@, kind: kind@, name: name@ },
        ),
{
    let mut content: serde_json::Map<String, serde_json::Value> = json::no_entries();
    json::insert(&mut content, "apiGroup", json::text(RBAC_GROUP));
    json::insert(&mut content, "kind", json::text(kind));
    json::insert(&mut content, "name", json::text(name));
    json::object(content)
}

/// The manifest of the RoleBinding that lets all authenticated users pull.
fn puller_manifest(namespace: &str) -> (value: serde_json::Value)
    ensures
        json::held(value) == manifest_json(pull_grant(namespace@)),
{
    let mut metadata: serde_json::Map<String, serde_json::Value> = json::no_entries();
    json::insert(&mut metadata, "name", json::text(PULLER_BINDING));
    json::insert(&mut metadata, "namespace", json::text(namespace));
    let mut subjects: Vec<serde_json::Value> = Vec::new();
    subjects.push(reference("Group", "system:authenticated"));
    let ghost grant = pull_grant(namespace@);
    assert(Seq::new(subjects@.len(), |i: int| json::held(subjects@[i])) =~= Seq::new(
        grant.subjects.len(),
        |i: int| reference_json(grant.subjects[i]),
    ));
    let mut content: serde_json::Map<String, serde_json::Value> = json::no_entries();
    json::insert(&mut content, "apiVersion", json::text("rbac.authorization.k8s.io/v1"));
    json::insert(&mut content, "kind", json::text("RoleBinding"));
    json::insert(&mut content, "metadata", json::object(metadata));
    json::insert(&mut content, "roleRef", reference("ClusterRole", "system:image-puller"));
    json::insert(&mut content, "subjects", json::list(subjects));
    json::object(content)
}

/// Ensure all authenticated users can pull images from the upstream namespace: the
/// RoleBinding to create there, by whether the one that grants it is there already.
///
/// Where it is there, nothing is to be created.
pub fn ensure_image_pull_rbac(exists: bool, image_namespace: &str) -> (result: Result<
    Option<RoleBinding>,
    OperatorError,
>)
    ensures
        exists ==> (result matches Ok(binding) && binding is None),
        !exists ==> (result matches Ok(Some(binding)) && binding@ == binding_of(
            pull_grant(image_namespace@),
        )),
{
    if exists {
        return Ok(None);
    }
    match from_value(puller_manifest(image_namespace)) {
        Ok(binding) => Ok(Some(binding)),
        Err(_) => Err(Failure::BuildRoleBinding),
    }
}

/// How the grant ended, by whether the RoleBinding could be created.
pub fn grant_result(created: bool, image_namespace: &str) -> (result: Result<(), OperatorError>)
    ensures
        created ==> result is Ok,
        !created ==> (result matches Err(error) && error@ == (Failure::CreateRoleBinding {
            namespace: image_namespace@,
        })),
{
    if created {
        Ok(())
    } else {
        Err(Failure::CreateRoleBinding { namespace: image_namespace.to_owned() })
    }
}

/// The grant is the binding "image-puller-all-authenticated" in the namespace, of the
/// ClusterRole "system:image-puller" to the group "system:authenticated" and to nobody
/// else.
pub proof fn law_everyone_may_pull(namespace: Seq<char>)
    ensures
        binding_of(pull_grant(namespace)) == (RoleBindingView {
            name: Some("image-puller-all-authenticated"@),
            namespace: Some(namespace),
            role_ref: RoleRefView {
                api_group: "rbac.authorization.k8s.io"@,
                kind: "ClusterRole"@,
                name: "system:image-puller"@,
            },
            subjects: Some(
                seq![
                    SubjectView {
                        api_group: Some("rbac.authorization.k8s.io"@),
                        kind: "Group"@,
                        name: "system:authenticated"@,
                        namespace: None,
                    },
                ],
            ),
        }),
{
    let binding = binding_of(pull_grant(namespace));
    assert(binding.subjects->0 =~= seq![
        SubjectView {
            api_group: Some("rbac.authorization.k8s.io"@),
            kind: "Group"@,
            name: "system:authenticated"@,
            namespace: None,
        },
    ]);
}

/// The manifest of a grant has the five keys of a RoleBinding, and under them all that
/// the grant spells out.
pub proof fn law_manifest_spells_out_the_grant(grant: Grant, i: int)
    ensures
        manifest_json(grant) matches json::Json::Object(keys) && {
            &&& keys.dom() == set![
                "apiVersion"@,
                "kind"@,
                "metadata"@,
                "roleRef"@,
                "subjects"@,
            ]
            &&& keys["apiVersion"@] == json::Json::Text("rbac.authorization.k8s.io/v1"@)
            &&& keys["kind"@] == json::Json::Text("RoleBinding"@)
            &&& keys["metadata"@] == json::Json::Object(
                map![
                    "name"@ => json::Json::Text(grant.name),
                    "namespace"@ => json::Json::Text(grant.namespace),
                ],
            )
            &&& keys["roleRef"@] == json::Json::Object(
                map![
                    "apiGroup"@ => json::Json::Text(grant.role.api_group),
                    "kind"@ => json::Json::Text(grant.role.kind),
                    "name"@ => json::Json::Text(grant.role.name),
                ],
            )
            &&& keys["subjects"@] matches json::Json::List(list) && list.len()
                == grant.subjects.len() && (0 <= i < list.len() ==> list[i] == json::Json::Object(
                map![
                    "apiGroup"@ => json::Json::Text(grant.subjects[i].api_group),
                    "kind"@ => json::Json::Text(grant.subjects[i].kind),
                    "name"@ => json::Json::Text(grant.subjects[i].name),
                ],
            ))
        },
{
    reveal_strlit("apiVersion");
    reveal_strlit("kind");
    reveal_strlit("metadata");
    reveal_strlit("roleRef");
    reveal_strlit("subjects");
    assert("apiVersion"@.len() == 10);
    assert("kind"@.len() == 4);
    assert("metadata"@.len() == 8 && "metadata"@[0] == 'm');
    assert("roleRef"@.len() == 7);
    assert("subjects"@.len() == 8 && "subjects"@[0] == 's');
    let keys = manifest_json(grant)->Object_0;
    assert(keys.dom() =~= set!["apiVersion"@, "kind"@, "metadata"@, "roleRef"@, "subjects"@]);
}

/// The model of a RoleBinding has all that is in it, and a refused value has none.
pub proof fn law_binding_is_kept(binding: RoleBinding, error: serde_json::Error)
    ensures
        binding_view(Ok(binding)) == Some(binding@),
        binding_view(Err(error)) is None,
        binding@.name is Some <==> binding.name is Some,
        binding.name is Some ==> binding@.name == Some(binding.name->0@),
        binding@.namespace is Some <==> binding.namespace is Some,
        binding.namespace is Some ==> binding@.namespace == Some(binding.namespace->0@),
        binding@.role_ref.api_group == binding.role_ref.api_group@,
        binding@.role_ref.kind == binding.role_ref.kind@,
        binding@.role_ref.name == binding.role_ref.name@,
        binding@.subjects is Some <==> binding.subjects is Some,
        binding.subjects is Some ==> binding@.subjects->0.len() == binding.subjects->0@.len()
            && forall|i: int|
            0 <= i < binding.subjects->0@.len() ==> {
                &&& (#[trigger] binding@.subjects->0[i]).kind == binding.subjects->0@[i].kind@
                &&& binding@.subjects->0[i].name == binding.subjects->0@[i].name@
                &&& binding@.subjects->0[i].api_group is Some
                    <==> binding.subjects->0@[i].api_group is Some
                &&& binding.subjects->0@[i].api_group is Some
                    ==> binding@.subjects->0[i].api_group == Some(
                    binding.subjects->0@[i].api_group->0@,
                )
                &&& binding@.subjects->0[i].namespace is Some
                    <==> binding.subjects->0@[i].namespace is Some
                &&& binding.subjects->0@[i].namespace is Some
                    ==> binding@.subjects->0[i].namespace == Some(
                    binding.subjects->0@[i].namespace->0@,
                )
            },
{
}

} // verus!

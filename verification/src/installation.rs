//! Whether the operator is installed.

use vstd::prelude::*;

use crate::error::OperatorError;

verus! {

/// A kind of resource, as requests name it.
#[derive(Debug, PartialEq, Eq)]
pub struct ResourceKind {
    pub group: String,
    pub version: String,
    pub api_version: String,
    pub kind: String,
    pub plural: String,
}

/// The name of the resource that configures the operator.
pub const CONFIG_NAME: &'static str = "config";

impl ResourceKind {
    /// Whether this is the kind `kind` of the operator's own group.
    pub open spec fn is_operator_kind(self, kind: Seq<char>, plural: Seq<char>) -> bool {
        &&& self.group@ == "operator.tekton.dev"@
        &&& self.version@ == "v1alpha1"@
        &&& self.api_version@ == "operator.tekton.dev/v1alpha1"@
        &&& self.kind@ == kind
        &&& self.plural@ == plural
    }

    fn operator_kind(kind: &str, plural: &str) -> (resource: ResourceKind)
        ensures
            resource.is_operator_kind(kind@, plural@),
    {
        ResourceKind {
            group: "operator.tekton.dev".to_owned(),
            version: "v1alpha1".to_owned(),
            api_version: "operator.tekton.dev/v1alpha1".to_owned(),
            kind: kind.to_owned(),
            plural: plural.to_owned(),
        }
    }

    /// The resource that configures the operator.
    pub fn tekton_config() -> (resource: ResourceKind)
        ensures
            resource.is_operator_kind("TektonConfig"@, "tektonconfigs"@),
    {
        ResourceKind::operator_kind("TektonConfig", "tektonconfigs")
    }

    /// The resource that the operator installs a component by.
    pub fn tekton_installer_set() -> (resource: ResourceKind)
        ensures
            resource.is_operator_kind("TektonInstallerSet"@, "tektoninstallersets"@),
    {
        ResourceKind::operator_kind("TektonInstallerSet", "tektoninstallersets")
    }
}

/// A request that failed. The status code is there where the API server answered.
#[derive(Debug, PartialEq, Eq)]
pub struct RequestFailure {
    pub code: Option<u16>,
}

/// What a reply to the request for the operator's configuration says.
pub open spec fn installation<T>(reply: Result<T, RequestFailure>) -> Result<T, OperatorError> {
    match reply {
        Ok(config) => Ok(config),
        Err(failure) => if failure.code == Some(404u16) {
            Err(OperatorError::OperatorNotInstalled)
        } else if failure.code == Some(403u16) {
            Err(OperatorError::OperatorForbidden)
        } else {
            Err(OperatorError::OperatorCheck)
        },
    }
}

/// Verify that the OpenShift Pipelines operator is installed, by the reply to the
/// request for the TektonConfig resource.
///
/// A configuration that was read is handed on. The API server's "not found" and
/// "forbidden" are told apart; every other failure is reported as it is, with context.
pub fn verify_operator<T>(reply: Result<T, RequestFailure>) -> (result: Result<T, OperatorError>)
    ensures
        result == installation(reply),
{
    match reply {
        Ok(config) => Ok(config),
        Err(failure) => match failure.code {
            Some(404) => Err(OperatorError::OperatorNotInstalled),
            Some(403) => Err(OperatorError::OperatorForbidden),
            _ => Err(OperatorError::OperatorCheck),
        },
    }
}

/// The operator counts as installed exactly where its configuration was read, and
/// only failures without a meaning of their own carry the request's error along.
pub proof fn law_installed_iff_read<T>(reply: Result<T, RequestFailure>)
    ensures
        installation(reply) is Ok <==> reply is Ok,
        installation(reply) matches Err(error) ==> (error@.is_context() <==> (reply->Err_0.code
            != Some(404u16) && reply->Err_0.code != Some(403u16))),
{
}

/// A configuration that was read is handed on as it is. Only the codes 404 and 403 have a
/// meaning of their own; any other code, and none, is a failed check.
pub proof fn law_codes_have_their_meaning<T>(config: T, code: u16)
    ensures
        installation(Ok::<T, RequestFailure>(config)) == Ok::<T, OperatorError>(config),
        installation(Err::<T, RequestFailure>(RequestFailure { code: Some(code) })) == Err::<
            T,
            OperatorError,
        >(
            if code == 404 {
                OperatorError::OperatorNotInstalled
            } else if code == 403 {
                OperatorError::OperatorForbidden
            } else {
                OperatorError::OperatorCheck
            },
        ),
        installation(Err::<T, RequestFailure>(RequestFailure { code: None })) == Err::<
            T,
            OperatorError,
        >(OperatorError::OperatorCheck),
{
}

/// A kind of the operator's own group is told by all five of its texts.
pub proof fn law_operator_kinds(resource: ResourceKind, kind: Seq<char>, plural: Seq<char>)
    ensures
        resource.is_operator_kind(kind, plural) <==> resource.group@ == "operator.tekton.dev"@
            && resource.version@ == "v1alpha1"@ && resource.api_version@
            == "operator.tekton.dev/v1alpha1"@ && resource.kind@ == kind && resource.plural@
            == plural,
{
}

} // verus!

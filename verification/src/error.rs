//! What can go wrong, and what the user is told.

use vstd::prelude::*;

verus! {

/// Why a step on the operator failed. `T` is the type of the texts in it.
#[derive(Debug, PartialEq, Eq)]
pub enum Failure<T> {
    /// The TektonConfig resource does not exist.
    OperatorNotInstalled,
    /// The TektonConfig resource may not be read.
    OperatorForbidden,
    /// The TektonConfig resource could not be read for another reason.
    OperatorCheck,
    /// The Deployments of a namespace could not be listed.
    ListDeployments { namespace: T },
    /// No known place holds the operator's Deployment. The three lists are the
    /// namespaces, the names and the label selectors that were tried.
    DeploymentNotFound { namespaces: T, names: T, labels: T },
    /// A Deployment could not be read.
    GetDeployment { namespace: T, name: T },
    /// A Deployment has no pod specification.
    NoContainers,
    /// A Deployment has no lifecycle container.
    NoLifecycleContainer,
    /// A Deployment could not be replaced.
    UpdateDeployment { namespace: T, name: T },
    /// The InstallerSets could not be listed.
    ListInstallerSets,
    /// The image-puller RoleBinding could not be built.
    BuildRoleBinding,
    /// The image-puller RoleBinding could not be created.
    CreateRoleBinding { namespace: T },
    /// A Deployment could not be read a second time.
    RereadDeployment { namespace: T, name: T },
    /// A Deployment selects its pods by no labels.
    NoMatchLabels,
    /// The operator's pods could not be listed.
    ListPods,
    /// No new operator pod became ready in time.
    RestartTimeout,
    /// The operator's Deployment lost the patched variables.
    EnvReverted,
}

/// `kind` and then the namespaced name `namespace/name`.
pub open spec fn about(kind: Seq<char>, namespace: Seq<char>, name: Seq<char>) -> Seq<char> {
    kind + namespace + "/"@ + name
}

fn about_text(kind: &str, namespace: &str, name: &str) -> (text: String)
    ensures
        text@ == about(kind@, namespace@, name@),
{
    let mut text: String = kind.to_owned();
    text.append(namespace);
    text.append("/");
    text.append(name);
    text
}

fn two(first: &str, second: &str) -> (text: String)
    ensures
        text@ == first@ + second@,
{
    let mut text: String = first.to_owned();
    text.append(second);
    text
}

impl Failure<Seq<char>> {
    /// The text that reports this error.
    pub open spec fn text(self) -> Seq<char> {
        match self {
            Failure::OperatorNotInstalled =>
                "OpenShift Pipelines operator not found. TektonConfig CR 'config' does not exist.\nIs the operator installed?"@,
            Failure::OperatorForbidden =>
                "Insufficient permissions to read TektonConfig CR.\nEnsure you have cluster-admin or appropriate RBAC."@,
            Failure::OperatorCheck => "Failed to verify operator installation"@,
            Failure::ListDeployments { namespace } =>
                "Failed to list deployments in namespace "@ + namespace,
            Failure::DeploymentNotFound { namespaces, names, labels } =>
                "Operator controller deployment not found.\nChecked namespaces: "@ + namespaces
                    + "\nChecked names: "@ + names + "\nChecked labels: "@ + labels,
            Failure::GetDeployment { namespace, name } => about(
                "Failed to get Deployment "@,
                namespace,
                name,
            ),
            Failure::NoContainers =>
                "Deployment has no containers in spec.template.spec.containers"@,
            Failure::NoLifecycleContainer =>
                "Container 'openshift-pipelines-operator-lifecycle' not found in Deployment"@,
            Failure::UpdateDeployment { namespace, name } => about(
                "Failed to update Deployment "@,
                namespace,
                name,
            ) + " with IMAGE_ env vars"@,
            Failure::ListInstallerSets => "Failed to list TektonInstallerSets"@,
            Failure::BuildRoleBinding => "Failed to build image-puller RoleBinding"@,
            Failure::CreateRoleBinding { namespace } =>
                "Failed to create image-puller RoleBinding in "@ + namespace,
            Failure::RereadDeployment { namespace, name } => about(
                "Failed to re-read Deployment "@,
                namespace,
                name,
            ),
            Failure::NoMatchLabels => "Deployment has no spec.selector.matchLabels"@,
            Failure::ListPods => "Failed to list operator pods"@,
            Failure::RestartTimeout =>
                "Timed out waiting for new operator pod to become Ready (180s)"@,
            Failure::EnvReverted =>
                "Deployment env vars were reverted (possibly by OLM). Cannot proceed — operator would reconcile with old images."@,
        }
    }

    /// Whether this error adds context to the failed request below it. The others
    /// stand alone.
    pub open spec fn is_context(self) -> bool {
        ||| self is OperatorCheck
        ||| self is ListDeployments
        ||| self is GetDeployment
        ||| self is UpdateDeployment
        ||| self is ListInstallerSets
        ||| self is BuildRoleBinding
        ||| self is CreateRoleBinding
        ||| self is RereadDeployment
        ||| self is ListPods
    }
}

/// Why a step on the operator failed.
pub type OperatorError = Failure<String>;

impl View for Failure<String> {
    type V = Failure<Seq<char>>;

    open spec fn view(&self) -> Failure<Seq<char>> {
        match *self {
            Failure::OperatorNotInstalled => Failure::OperatorNotInstalled,
            Failure::OperatorForbidden => Failure::OperatorForbidden,
            Failure::OperatorCheck => Failure::OperatorCheck,
            Failure::ListDeployments { namespace } => Failure::ListDeployments {
                namespace: namespace@,
            },
            Failure::DeploymentNotFound { namespaces, names, labels } =>
                Failure::DeploymentNotFound {
                namespaces: namespaces@,
                names: names@,
                labels: labels@,
            },
            Failure::GetDeployment { namespace, name } => Failure::GetDeployment {
                namespace: namespace@,
                name: name@,
            },
            Failure::NoContainers => Failure::NoContainers,
            Failure::NoLifecycleContainer => Failure::NoLifecycleContainer,
            Failure::UpdateDeployment { namespace, name } => Failure::UpdateDeployment {
                namespace: namespace@,
                name: name@,
            },
            Failure::ListInstallerSets => Failure::ListInstallerSets,
            Failure::BuildRoleBinding => Failure::BuildRoleBinding,
            Failure::CreateRoleBinding { namespace } => Failure::CreateRoleBinding {
                namespace: namespace@,
            },
            Failure::RereadDeployment { namespace, name } => Failure::RereadDeployment {
                namespace: namespace@,
                name: name@,
            },
            Failure::NoMatchLabels => Failure::NoMatchLabels,
            Failure::ListPods => Failure::ListPods,
            Failure::RestartTimeout => Failure::RestartTimeout,
            Failure::EnvReverted => Failure::EnvReverted,
        }
    }
}

impl Failure<String> {
    /// The text that reports this error.
    pub fn message(&self) -> (message: String)
        ensures
            message@ == self@.text(),
    {
        match self {
            Failure::OperatorNotInstalled =>
                "OpenShift Pipelines operator not found. TektonConfig CR 'config' does not exist.\nIs the operator installed?".to_owned(),
            Failure::OperatorForbidden =>
                "Insufficient permissions to read TektonConfig CR.\nEnsure you have cluster-admin or appropriate RBAC.".to_owned(),
            Failure::OperatorCheck => "Failed to verify operator installation".to_owned(),
            Failure::ListDeployments { namespace } => two(
                "Failed to list deployments in namespace ",
                namespace.as_str(),
            ),
            Failure::DeploymentNotFound { namespaces, names, labels } => {
                let mut text: String = two(
                    "Operator controller deployment not found.\nChecked namespaces: ",
                    namespaces.as_str(),
                );
                text.append("\nChecked names: ");
                text.append(names.as_str());
                text.append("\nChecked labels: ");
                text.append(labels.as_str());
                text
            },
            Failure::GetDeployment { namespace, name } => about_text(
                "Failed to get Deployment ",
                namespace.as_str(),
                name.as_str(),
            ),
            Failure::NoContainers =>
                "Deployment has no containers in spec.template.spec.containers".to_owned(),
            Failure::NoLifecycleContainer =>
                "Container 'openshift-pipelines-operator-lifecycle' not found in Deployment".to_owned(),
            Failure::UpdateDeployment { namespace, name } => {
                let mut text: String = about_text(
                    "Failed to update Deployment ",
                    namespace.as_str(),
                    name.as_str(),
                );
                text.append(" with IMAGE_ env vars");
                text
            },
            Failure::ListInstallerSets => "Failed to list TektonInstallerSets".to_owned(),
            Failure::BuildRoleBinding =>
                "Failed to build image-puller RoleBinding".to_owned(),
            Failure::CreateRoleBinding { namespace } => two(
                "Failed to create image-puller RoleBinding in ",
                namespace.as_str(),
            ),
            Failure::RereadDeployment { namespace, name } => about_text(
                "Failed to re-read Deployment ",
                namespace.as_str(),
                name.as_str(),
            ),
            Failure::NoMatchLabels =>
                "Deployment has no spec.selector.matchLabels".to_owned(),
            Failure::ListPods => "Failed to list operator pods".to_owned(),
            Failure::RestartTimeout =>
                "Timed out waiting for new operator pod to become Ready (180s)".to_owned(),
            Failure::EnvReverted =>
                "Deployment env vars were reverted (possibly by OLM). Cannot proceed — operator would reconcile with old images.".to_owned(),
        }
    }

    /// Whether this error adds context to the failed request below it.
    pub fn wraps_cause(&self) -> (wraps: bool)
        ensures
            wraps == self@.is_context(),
    {
        match self {
            Failure::OperatorCheck => true,
            Failure::ListDeployments { .. } => true,
            Failure::GetDeployment { .. } => true,
            Failure::UpdateDeployment { .. } => true,
            Failure::ListInstallerSets => true,
            Failure::BuildRoleBinding => true,
            Failure::CreateRoleBinding { .. } => true,
            Failure::RereadDeployment { .. } => true,
            Failure::ListPods => true,
            _ => false,
        }
    }
}

/// What the user is told, with the places and the names that it is about.
pub proof fn law_messages_name_what_they_are_about(a: Seq<char>, b: Seq<char>, c: Seq<char>)
    ensures
        Failure::<Seq<char>>::OperatorNotInstalled.text()
            == "OpenShift Pipelines operator not found. TektonConfig CR 'config' does not exist.\nIs the operator installed?"@,
        Failure::<Seq<char>>::OperatorForbidden.text()
            == "Insufficient permissions to read TektonConfig CR.\nEnsure you have cluster-admin or appropriate RBAC."@,
        Failure::<Seq<char>>::OperatorCheck.text() == "Failed to verify operator installation"@,
        (Failure::ListDeployments { namespace: a }).text()
            == "Failed to list deployments in namespace "@ + a,
        (Failure::DeploymentNotFound { namespaces: a, names: b, labels: c }).text()
            == "Operator controller deployment not found.\nChecked namespaces: "@ + a
            + "\nChecked names: "@ + b + "\nChecked labels: "@ + c,
        (Failure::GetDeployment { namespace: a, name: b }).text() == "Failed to get Deployment "@
            + a + "/"@ + b,
        (Failure::RereadDeployment { namespace: a, name: b }).text()
            == "Failed to re-read Deployment "@ + a + "/"@ + b,
        (Failure::UpdateDeployment { namespace: a, name: b }).text()
            == "Failed to update Deployment "@ + a + "/"@ + b + " with IMAGE_ env vars"@,
        Failure::<Seq<char>>::NoContainers.text()
            == "Deployment has no containers in spec.template.spec.containers"@,
        Failure::<Seq<char>>::NoLifecycleContainer.text()
            == "Container 'openshift-pipelines-operator-lifecycle' not found in Deployment"@,
        Failure::<Seq<char>>::ListInstallerSets.text() == "Failed to list TektonInstallerSets"@,
        (Failure::CreateRoleBinding { namespace: a }).text()
            == "Failed to create image-puller RoleBinding in "@ + a,
        Failure::<Seq<char>>::NoMatchLabels.text()
            == "Deployment has no spec.selector.matchLabels"@,
        Failure::<Seq<char>>::ListPods.text() == "Failed to list operator pods"@,
        Failure::<Seq<char>>::RestartTimeout.text()
            == "Timed out waiting for new operator pod to become Ready (180s)"@,
        Failure::<Seq<char>>::EnvReverted.text()
            == "Deployment env vars were reverted (possibly by OLM). Cannot proceed — operator would reconcile with old images."@,
{
}

/// An error stands alone exactly where no request failed: the operator is not installed
/// or may not be looked at, the search found nothing, the Deployment lacks what is
/// needed, time is up, or the mappings were lost.
pub proof fn law_errors_of_requests_keep_their_cause(error: Failure<Seq<char>>)
    ensures
        error.is_context() <==> match error {
            Failure::OperatorNotInstalled => false,
            Failure::OperatorForbidden => false,
            Failure::DeploymentNotFound { .. } => false,
            Failure::NoContainers => false,
            Failure::NoLifecycleContainer => false,
            Failure::NoMatchLabels => false,
            Failure::RestartTimeout => false,
            Failure::EnvReverted => false,
            _ => true,
        },
{
}

/// The model of an error is the same error, with the texts of its strings.
pub proof fn law_errors_are_kept(a: String, b: String, c: String)
    ensures
        OperatorError::OperatorNotInstalled@ == Failure::<Seq<char>>::OperatorNotInstalled,
        OperatorError::OperatorForbidden@ == Failure::<Seq<char>>::OperatorForbidden,
        OperatorError::OperatorCheck@ == Failure::<Seq<char>>::OperatorCheck,
        (OperatorError::ListDeployments { namespace: a })@ == (Failure::ListDeployments {
            namespace: a@,
        }),
        (OperatorError::DeploymentNotFound { namespaces: a, names: b, labels: c })@ == (
        Failure::DeploymentNotFound { namespaces: a@, names: b@, labels: c@ }),
        (OperatorError::GetDeployment { namespace: a, name: b })@ == (Failure::GetDeployment {
            namespace: a@,
            name: b@,
        }),
        (OperatorError::RereadDeployment { namespace: a, name: b })@ == (
        Failure::RereadDeployment { namespace: a@, name: b@ }),
        (OperatorError::UpdateDeployment { namespace: a, name: b })@ == (
        Failure::UpdateDeployment { namespace: a@, name: b@ }),
        OperatorError::NoContainers@ == Failure::<Seq<char>>::NoContainers,
        OperatorError::NoLifecycleContainer@ == Failure::<Seq<char>>::NoLifecycleContainer,
        OperatorError::ListInstallerSets@ == Failure::<Seq<char>>::ListInstallerSets,
        OperatorError::BuildRoleBinding@ == Failure::<Seq<char>>::BuildRoleBinding,
        (OperatorError::CreateRoleBinding { namespace: a })@ == (Failure::CreateRoleBinding {
            namespace: a@,
        }),
        OperatorError::NoMatchLabels@ == Failure::<Seq<char>>::NoMatchLabels,
        OperatorError::ListPods@ == Failure::<Seq<char>>::ListPods,
        OperatorError::RestartTimeout@ == Failure::<Seq<char>>::RestartTimeout,
        OperatorError::EnvReverted@ == Failure::<Seq<char>>::EnvReverted,
{
}

} // verus!

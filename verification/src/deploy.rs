//! The deploy flow: which step is next, and with what.
//!
//! A deploy has one step pending at a time; the event that answers it decides what is
//! next. What a step brings that later steps need is kept.

use vstd::prelude::*;

use crate::error::{Failure, OperatorError};
use crate::model;
use crate::registry;
use crate::text;

verus! {

/// A step of the deploy flow, or its end.
#[derive(Clone, Copy, Debug, PartialEq, Eq, Structural)]
pub enum DeployStep {
    /// Connect to the cluster.
    Connect,
    /// Verify that the operator is installed.
    VerifyOperator,
    /// Load the component configuration.
    LoadConfig,
    /// Build the image mappings for the internal registry.
    BuildMappings,
    /// Show the mappings.
    ShowMappings,
    /// Find the operator's Deployment.
    FindDeployment,
    /// Patch the mappings into the Deployment.
    PatchDeployment,
    /// Restart the operator's pods, so that they see the mappings.
    RestartPod,
    /// Verify that the Deployment still has the mappings.
    VerifyEnv,
    /// Ensure that everyone can pull from the image namespace.
    EnsurePullAccess,
    /// Delete the component's InstallerSets.
    DeleteInstallerSets,
    /// Wait for the operator to bring up the new images.
    AwaitReconciliation,
    /// Done; whether the wait was seen to its end does not matter for that.
    Complete { reconciled: bool },
    /// A step failed.
    StepFailed,
    /// The Deployment lost the mappings.
    EnvReverted,
}

/// What came of a step.
pub enum DeployEvent {
    /// The step succeeded, and brought nothing that is needed later.
    Succeeded,
    /// The configuration: the components, each with its own InstallerSet prefix if it
    /// has one.
    ConfigLoaded(Vec<(String, Option<String>)>),
    /// The mappings.
    MappingsBuilt(Vec<(String, String)>),
    /// The operator's Deployment.
    DeploymentFound { namespace: String, name: String },
    /// Whether the Deployment has the mappings.
    EnvVerified(bool),
    /// The step failed.
    Failed,
}

/// Model of a [`DeployEvent`].
pub enum DeployEventView {
    Succeeded,
    ConfigLoaded(Seq<(Seq<char>, Option<Seq<char>>)>),
    MappingsBuilt(Seq<(Seq<char>, Seq<char>)>),
    DeploymentFound { namespace: Seq<char>, name: Seq<char> },
    EnvVerified(bool),
    Failed,
}

/// The models of a list of components.
pub open spec fn components(list: Seq<(String, Option<String>)>) -> Seq<
    (Seq<char>, Option<Seq<char>>),
> {
    Seq::new(list.len(), |i: int| (list[i].0@, text::opt_text(list[i].1)))
}

impl View for DeployEvent {
    type V = DeployEventView;

    open spec fn view(&self) -> DeployEventView {
        match *self {
            DeployEvent::Succeeded => DeployEventView::Succeeded,
            DeployEvent::ConfigLoaded(list) => DeployEventView::ConfigLoaded(components(list@)),
            DeployEvent::MappingsBuilt(list) => DeployEventView::MappingsBuilt(
                model::pairs(list@),
            ),
            DeployEvent::DeploymentFound { namespace, name } => DeployEventView::DeploymentFound {
                namespace: namespace@,
                name: name@,
            },
            DeployEvent::EnvVerified(ok) => DeployEventView::EnvVerified(ok),
            DeployEvent::Failed => DeployEventView::Failed,
        }
    }
}

/// A deploy of one component.
pub struct Deploy {
    component: String,
    internal_registry: String,
    step: DeployStep,
    installer_set_prefix: Option<String>,
    mappings: Vec<(String, String)>,
    namespace: String,
    deployment_name: String,
}

/// Model of a [`Deploy`].
#[verifier::ext_equal]
pub struct DeployView {
    pub component: Seq<char>,
    pub internal_registry: Seq<char>,
    pub step: DeployStep,
    pub installer_set_prefix: Option<Seq<char>>,
    pub mappings: Seq<(Seq<char>, Seq<char>)>,
    pub namespace: Seq<char>,
    pub deployment_name: Seq<char>,
}

impl View for Deploy {
    type V = DeployView;

    closed spec fn view(&self) -> DeployView {
        DeployView {
            component: self.component@,
            internal_registry: self.internal_registry@,
            step: self.step,
            installer_set_prefix: text::opt_text(self.installer_set_prefix),
            mappings: model::pairs(self.mappings@),
            namespace: self.namespace@,
            deployment_name: self.deployment_name@,
        }
    }
}

/// A deploy of `component` with its first step pending.
pub open spec fn at_start(component: Seq<char>, registry: Seq<char>) -> DeployView {
    DeployView {
        component,
        internal_registry: registry::internal_location(registry),
        step: DeployStep::Connect,
        installer_set_prefix: None,
        mappings: Seq::empty(),
        namespace: Seq::empty(),
        deployment_name: Seq::empty(),
    }
}

/// The InstallerSet prefix that the configuration gives to `component`.
pub open spec fn configured_prefix(
    config: Seq<(Seq<char>, Option<Seq<char>>)>,
    component: Seq<char>,
) -> Option<Seq<char>>
    decreases config.len(),
{
    if config.len() == 0 {
        None
    } else if config[0].0 == component {
        config[0].1
    } else {
        configured_prefix(config.skip(1), component)
    }
}

/// The step after `step` where nothing but its success is needed.
pub open spec fn plain_successor(step: DeployStep) -> Option<DeployStep> {
    match step {
        DeployStep::Connect => Some(DeployStep::VerifyOperator),
        DeployStep::VerifyOperator => Some(DeployStep::LoadConfig),
        DeployStep::ShowMappings => Some(DeployStep::FindDeployment),
        DeployStep::PatchDeployment => Some(DeployStep::RestartPod),
        DeployStep::RestartPod => Some(DeployStep::VerifyEnv),
        DeployStep::EnsurePullAccess => Some(DeployStep::DeleteInstallerSets),
        DeployStep::DeleteInstallerSets => Some(DeployStep::AwaitReconciliation),
        DeployStep::AwaitReconciliation => Some(DeployStep::Complete { reconciled: true }),
        _ => None,
    }
}

/// No step is pending.
pub open spec fn is_end(step: DeployStep) -> bool {
    step is Complete || step is StepFailed || step is EnvReverted
}

/// The deploy after `event`. A failed step ends it, but for the wait at its end, and so
/// does a Deployment without the mappings. An event that answers another step than the
/// pending one changes nothing.
pub open spec fn after_event(deploy: DeployView, event: DeployEventView) -> DeployView {
    match event {
        DeployEventView::Succeeded => match plain_successor(deploy.step) {
            Some(step) => DeployView { step, ..deploy },
            None => deploy,
        },
        DeployEventView::ConfigLoaded(config) => if deploy.step is LoadConfig {
            DeployView {
                step: DeployStep::BuildMappings,
                installer_set_prefix: configured_prefix(config, deploy.component),
                ..deploy
            }
        } else {
            deploy
        },
        DeployEventView::MappingsBuilt(mappings) => if deploy.step is BuildMappings {
            DeployView { step: DeployStep::ShowMappings, mappings, ..deploy }
        } else {
            deploy
        },
        DeployEventView::DeploymentFound { namespace, name } => if deploy.step is FindDeployment {
            DeployView {
                step: DeployStep::PatchDeployment,
                namespace,
                deployment_name: name,
                ..deploy
            }
        } else {
            deploy
        },
        DeployEventView::EnvVerified(ok) => if deploy.step is VerifyEnv {
            DeployView {
                step: if ok {
                    DeployStep::EnsurePullAccess
                } else {
                    DeployStep::EnvReverted
                },
                ..deploy
            }
        } else {
            deploy
        },
        DeployEventView::Failed => if deploy.step is AwaitReconciliation {
            DeployView { step: DeployStep::Complete { reconciled: false }, ..deploy }
        } else if is_end(deploy.step) {
            deploy
        } else {
            DeployView { step: DeployStep::StepFailed, ..deploy }
        },
    }
}

/// The InstallerSet prefix that the configuration gives to `component`.
fn find_prefix(config: &Vec<(String, Option<String>)>, component: &String) -> (prefix: Option<
    String,
>)
    ensures
        text::opt_text(prefix) == configured_prefix(components(config@), component@),
{
    let ghost all = components(config@);
    let mut i: usize = 0;
    assert(all.skip(0) =~= all);
    while i < config.len()
        invariant
            i <= config.len(),
            all == components(config@),
            configured_prefix(all, component@) == configured_prefix(
                all.skip(i as int),
                component@,
            ),
        decreases config.len() - i,
    {
        assert(all.skip(i as int)[0] == all[i as int]);
        assert(all.skip(i as int).skip(1) =~= all.skip(i + 1));
        if config[i].0 == *component {
            return config[i].1.clone();
        }
        i = i + 1;
    }
    None
}

impl Deploy {
    /// A deploy of `component`, whose images were pushed to `registry`.
    ///
    /// Pods pull from the internal service, not from the external route.
    pub fn start(component: &str, registry: &str) -> (deploy: Deploy)
        ensures
            deploy@ == at_start(component@, registry@),
    {
        let deploy: Deploy = Deploy {
            component: component.to_owned(),
            internal_registry: registry::to_internal_registry(registry),
            step: DeployStep::Connect,
            installer_set_prefix: None,
            mappings: Vec::new(),
            namespace: String::new(),
            deployment_name: String::new(),
        };
        assert(deploy@ =~= at_start(component@, registry@));
        deploy
    }

    /// The pending step, or the end.
    pub fn step(&self) -> (step: DeployStep)
        ensures
            step == self@.step,
    {
        self.step
    }

    /// The error that the flow itself ends with; a failed step has its own.
    pub fn error(&self) -> (error: Option<OperatorError>)
        ensures
            match error {
                Some(e) => self@.step is EnvReverted && e@ is EnvReverted,
                None => self@.step !is EnvReverted,
            },
    {
        match self.step {
            DeployStep::EnvReverted => Some(Failure::EnvReverted),
            _ => None,
        }
    }

    /// The component to deploy.
    pub fn component(&self) -> (component: &str)
        ensures
            component@ == self@.component,
    {
        self.component.as_str()
    }

    /// The registry as pods reach it.
    pub fn internal_registry(&self) -> (registry: &str)
        ensures
            registry@ == self@.internal_registry,
    {
        self.internal_registry.as_str()
    }

    /// The namespace that the images are in.
    pub fn image_namespace(&self) -> (namespace: &str)
        ensures
            namespace@ == text::after_last(self@.internal_registry, '/'),
    {
        registry::image_namespace(self.internal_registry.as_str())
    }

    /// The InstallerSet prefix of the component, if it has one of its own.
    pub fn installer_set_prefix(&self) -> (prefix: Option<&str>)
        ensures
            match prefix {
                Some(p) => self@.installer_set_prefix == Some(p@),
                None => self@.installer_set_prefix is None,
            },
    {
        match &self.installer_set_prefix {
            Some(prefix) => Some(prefix.as_str()),
            None => None,
        }
    }

    /// The mappings.
    pub fn mappings(&self) -> (mappings: &[(String, String)])
        ensures
            model::pairs(mappings@) == self@.mappings,
    {
        self.mappings.as_slice()
    }

    /// The namespace of the operator's Deployment.
    pub fn namespace(&self) -> (namespace: &str)
        ensures
            namespace@ == self@.namespace,
    {
        self.namespace.as_str()
    }

    /// The name of the operator's Deployment.
    pub fn deployment_name(&self) -> (name: &str)
        ensures
            name@ == self@.deployment_name,
    {
        self.deployment_name.as_str()
    }
}

/// Run the deploy flow: take in what came of the pending step.
pub fn run_deploy(deploy: &mut Deploy, event: DeployEvent)
    ensures
        final(deploy)@ == after_event(old(deploy)@, event@),
{
    match event {
        DeployEvent::Succeeded => {
            deploy.step = match deploy.step {
                DeployStep::Connect => DeployStep::VerifyOperator,
                DeployStep::VerifyOperator => DeployStep::LoadConfig,
                DeployStep::ShowMappings => DeployStep::FindDeployment,
                DeployStep::PatchDeployment => DeployStep::RestartPod,
                DeployStep::RestartPod => DeployStep::VerifyEnv,
                DeployStep::EnsurePullAccess => DeployStep::DeleteInstallerSets,
                DeployStep::DeleteInstallerSets => DeployStep::AwaitReconciliation,
                DeployStep::AwaitReconciliation => DeployStep::Complete { reconciled: true },
                step => step,
            };
        },
        DeployEvent::ConfigLoaded(config) => {
            if deploy.step == DeployStep::LoadConfig {
                deploy.installer_set_prefix = find_prefix(&config, &deploy.component);
                deploy.step = DeployStep::BuildMappings;
            }
        },
        DeployEvent::MappingsBuilt(mappings) => {
            if deploy.step == DeployStep::BuildMappings {
                deploy.mappings = mappings;
                deploy.step = DeployStep::ShowMappings;
            }
        },
        DeployEvent::DeploymentFound { namespace, name } => {
            if deploy.step == DeployStep::FindDeployment {
                deploy.namespace = namespace;
                deploy.deployment_name = name;
                deploy.step = DeployStep::PatchDeployment;
            }
        },
        DeployEvent::EnvVerified(ok) => {
            if deploy.step == DeployStep::VerifyEnv {
                deploy.step = if ok {
                    DeployStep::EnsurePullAccess
                } else {
                    DeployStep::EnvReverted
                };
            }
        },
        DeployEvent::Failed => {
            deploy.step = match deploy.step {
                DeployStep::AwaitReconciliation => DeployStep::Complete { reconciled: false },
                DeployStep::Complete { reconciled } => DeployStep::Complete { reconciled },
                DeployStep::EnvReverted => DeployStep::EnvReverted,
                _ => DeployStep::StepFailed,
            };
        },
    }
}

} // verus!

//! What the deploy flow promises as a whole.

use vstd::prelude::*;

use crate::deploy;
use crate::deploy::{DeployEvent, DeployEventView, DeployStep, DeployView};

verus! {

/// The deploy after all of `events`, in their order.
pub open spec fn after_all(deploy: DeployView, events: Seq<DeployEventView>) -> DeployView
    decreases events.len(),
{
    if events.len() == 0 {
        deploy
    } else {
        deploy::after_event(after_all(deploy, events.drop_last()), events.last())
    }
}

/// How many steps lie before `step`. A deploy that has failed is in no place.
pub open spec fn place(step: DeployStep) -> int {
    match step {
        DeployStep::Connect => 0,
        DeployStep::VerifyOperator => 1,
        DeployStep::LoadConfig => 2,
        DeployStep::BuildMappings => 3,
        DeployStep::ShowMappings => 4,
        DeployStep::FindDeployment => 5,
        DeployStep::PatchDeployment => 6,
        DeployStep::RestartPod => 7,
        DeployStep::VerifyEnv => 8,
        DeployStep::EnsurePullAccess => 9,
        DeployStep::DeleteInstallerSets => 10,
        DeployStep::AwaitReconciliation => 11,
        DeployStep::Complete { .. } => 12,
        DeployStep::StepFailed => -1,
        DeployStep::EnvReverted => -1,
    }
}

/// `event` is the good end of `step`. The wait has no bad end.
pub open spec fn succeeds(step: DeployStep, event: DeployEventView) -> bool {
    match step {
        DeployStep::LoadConfig => event is ConfigLoaded,
        DeployStep::BuildMappings => event is MappingsBuilt,
        DeployStep::FindDeployment => event is DeploymentFound,
        DeployStep::VerifyEnv => event == DeployEventView::EnvVerified(true),
        DeployStep::AwaitReconciliation => event is Succeeded || event is Failed,
        _ => event is Succeeded,
    }
}

/// The event at `i` came while `step` was pending in a deploy that began as `start`, and
/// was its good end.
pub open spec fn done_at(
    start: DeployView,
    events: Seq<DeployEventView>,
    step: DeployStep,
    i: int,
) -> bool {
    &&& 0 <= i < events.len()
    &&& after_all(start, events.take(i)).step == step
    &&& succeeds(step, events[i])
}

/// The steps come one after the other and none is left out. The only other ways on are
/// a failed step, before the wait, and a Deployment that lost the mappings.
pub proof fn law_steps_come_in_order(deploy: DeployView, event: DeployEventView)
    ensures
        ({
            let after = deploy::after_event(deploy, event);
            ||| after == deploy
            ||| !deploy::is_end(deploy.step) && succeeds(deploy.step, event) && place(after.step)
                == place(deploy.step) + 1
            ||| !deploy::is_end(deploy.step) && deploy.step !is AwaitReconciliation
                && event is Failed && after.step is StepFailed
            ||| deploy.step is VerifyEnv && event == DeployEventView::EnvVerified(false)
                && after.step is EnvReverted
        }),
{
}

/// A step is pending only after every earlier step was pending and ended well. So
/// InstallerSets are deleted, and a deploy is complete, only after the Deployment was
/// seen to have the mappings when the pods had been restarted.
pub proof fn law_a_step_needs_all_earlier_ones(
    component: Seq<char>,
    registry: Seq<char>,
    events: Seq<DeployEventView>,
    earlier: DeployStep,
)
    requires
        !deploy::is_end(earlier),
        place(earlier) < place(
            after_all(deploy::at_start(component, registry), events).step,
        ),
    ensures
        exists|i: int|
            #[trigger] done_at(deploy::at_start(component, registry), events, earlier, i),
    decreases events.len(),
{
    let start = deploy::at_start(component, registry);
    if events.len() > 0 {
        let fewer = events.drop_last();
        let last = events.len() - 1;
        let before = after_all(start, fewer);
        law_steps_come_in_order(before, events.last());
        assert(events.take(last) =~= fewer);
        if before.step == earlier {
            assert(done_at(start, events, earlier, last));
        } else {
            law_a_step_needs_all_earlier_ones(component, registry, fewer, earlier);
            let i = choose|i: int| #[trigger] done_at(start, fewer, earlier, i);
            assert(events.take(i) =~= fewer.take(i));
            assert(done_at(start, events, earlier, i));
        }
    }
}

/// Once the Deployment is found, the patch, the restart and the look at the result are
/// about that Deployment and the same mappings, and the InstallerSets to delete are
/// chosen by the same component and prefix: nothing that happens changes any of it.
pub proof fn law_what_is_deployed_stays_the_same(
    deploy: DeployView,
    events: Seq<DeployEventView>,
)
    requires
        deploy.step is PatchDeployment,
    ensures
        after_all(deploy, events) == (DeployView {
            step: after_all(deploy, events).step,
            ..deploy
        }),
        deploy::is_end(after_all(deploy, events).step) || place(after_all(deploy, events).step)
            >= place(DeployStep::PatchDeployment),
    decreases events.len(),
{
    if events.len() > 0 {
        law_what_is_deployed_stays_the_same(deploy, events.drop_last());
    }
}

/// The component and the internal registry are those that the deploy began with.
pub proof fn law_the_target_is_fixed(
    component: Seq<char>,
    registry: Seq<char>,
    events: Seq<DeployEventView>,
)
    ensures
        after_all(deploy::at_start(component, registry), events).component == component,
        after_all(deploy::at_start(component, registry), events).internal_registry
            == crate::registry::internal_location(registry),
    decreases events.len(),
{
    if events.len() > 0 {
        law_the_target_is_fixed(component, registry, events.drop_last());
    }
}

/// Once a deploy has ended nothing changes it.
pub proof fn law_an_end_is_final(deploy: DeployView, events: Seq<DeployEventView>)
    requires
        deploy::is_end(deploy.step),
    ensures
        after_all(deploy, events) == deploy,
    decreases events.len(),
{
    if events.len() > 0 {
        law_an_end_is_final(deploy, events.drop_last());
    }
}

/// A failed step before the wait ends the deploy as failed. A failed wait does not: the
/// deploy is complete either way.
pub proof fn law_only_the_wait_may_fail(deploy: DeployView)
    requires
        !deploy::is_end(deploy.step),
    ensures
        deploy::after_event(deploy, DeployEventView::Failed).step == if deploy.step
            is AwaitReconciliation {
            DeployStep::Complete { reconciled: false }
        } else {
            DeployStep::StepFailed
        },
        deploy.step is AwaitReconciliation ==> deploy::after_event(
            deploy,
            DeployEventView::Succeeded,
        ).step == (DeployStep::Complete { reconciled: true }),
{
}

/// Where the configuration names no component twice, the prefix does not depend on its
/// order: it is the one that the component has there, and a component that is not there
/// has none.
pub proof fn law_prefix_is_the_components_own(
    config: Seq<(Seq<char>, Option<Seq<char>>)>,
    component: Seq<char>,
)
    requires
        forall|i: int, j: int|
            0 <= i < j < config.len() ==> (#[trigger] config[i]).0 != (#[trigger] config[j]).0,
    ensures
        forall|i: int|
            0 <= i < config.len() && (#[trigger] config[i]).0 == component
                ==> deploy::configured_prefix(config, component) == config[i].1,
        (forall|i: int| 0 <= i < config.len() ==> (#[trigger] config[i]).0 != component)
            ==> deploy::configured_prefix(config, component) is None,
    decreases config.len(),
{
    if config.len() > 0 {
        let rest = config.skip(1);
        assert forall|i: int, j: int| 0 <= i < j < rest.len() implies (#[trigger] rest[i]).0
            != (#[trigger] rest[j]).0 by {
            assert(config[i + 1].0 != config[j + 1].0);
        }
        law_prefix_is_the_components_own(rest, component);
        assert forall|i: int| 0 <= i < config.len() && (#[trigger] config[i]).0 == component implies
            deploy::configured_prefix(config, component) == config[i].1 by {
            if i > 0 {
                assert(config[0].0 != config[i].0);
                assert(rest[i - 1] == config[i]);
            }
        }
        if forall|i: int| 0 <= i < config.len() ==> (#[trigger] config[i]).0 != component {
            assert(config[0].0 != component);
            assert forall|i: int| 0 <= i < rest.len() implies (#[trigger] rest[i]).0
                != component by {
                assert(config[i + 1].0 != component);
            }
        }
    }
}

/// A deploy begins with the connection, for its component and for the internal location
/// of its registry, and with nothing else known.
pub proof fn law_a_deploy_begins_empty(component: Seq<char>, registry: Seq<char>)
    ensures
        ({
            let start = deploy::at_start(component, registry);
            &&& start.step is Connect
            &&& start.component == component
            &&& start.internal_registry == crate::registry::internal_location(registry)
            &&& start.installer_set_prefix is None
            &&& start.mappings.len() == 0
            &&& start.namespace.len() == 0
            &&& start.deployment_name.len() == 0
        }),
{
}

/// The step after each step that only has to succeed; success says nothing to the others.
/// Nothing but the step changes.
pub proof fn law_what_follows_success(deploy: DeployView)
    ensures
        ({
            let after = deploy::after_event(deploy, DeployEventView::Succeeded);
            &&& after == (DeployView { step: after.step, ..deploy })
            &&& after.step == match deploy.step {
                DeployStep::Connect => DeployStep::VerifyOperator,
                DeployStep::VerifyOperator => DeployStep::LoadConfig,
                DeployStep::LoadConfig => DeployStep::LoadConfig,
                DeployStep::BuildMappings => DeployStep::BuildMappings,
                DeployStep::ShowMappings => DeployStep::FindDeployment,
                DeployStep::FindDeployment => DeployStep::FindDeployment,
                DeployStep::PatchDeployment => DeployStep::RestartPod,
                DeployStep::RestartPod => DeployStep::VerifyEnv,
                DeployStep::VerifyEnv => DeployStep::VerifyEnv,
                DeployStep::EnsurePullAccess => DeployStep::DeleteInstallerSets,
                DeployStep::DeleteInstallerSets => DeployStep::AwaitReconciliation,
                DeployStep::AwaitReconciliation => DeployStep::Complete { reconciled: true },
                DeployStep::Complete { reconciled } => DeployStep::Complete { reconciled },
                DeployStep::StepFailed => DeployStep::StepFailed,
                DeployStep::EnvReverted => DeployStep::EnvReverted,
            }
        }),
{
}

/// The mappings of a deploy are exactly those that were built, all of them and in their
/// order, and nothing else of it changes with them but the step.
pub proof fn law_all_mappings_are_kept(
    deploy: DeployView,
    mappings: Seq<(Seq<char>, Seq<char>)>,
)
    ensures
        deploy.step is BuildMappings ==> deploy::after_event(
            deploy,
            DeployEventView::MappingsBuilt(mappings),
        ) == (DeployView { step: DeployStep::ShowMappings, mappings, ..deploy }),
        deploy.step !is BuildMappings ==> deploy::after_event(
            deploy,
            DeployEventView::MappingsBuilt(mappings),
        ) == deploy,
{
}

/// The Deployment of a deploy is exactly the one that was found.
pub proof fn law_the_found_deployment_is_kept(
    deploy: DeployView,
    namespace: Seq<char>,
    name: Seq<char>,
)
    ensures
        deploy.step is FindDeployment ==> deploy::after_event(
            deploy,
            DeployEventView::DeploymentFound { namespace, name },
        ) == (DeployView {
            step: DeployStep::PatchDeployment,
            namespace,
            deployment_name: name,
            ..deploy
        }),
        deploy.step !is FindDeployment ==> deploy::after_event(
            deploy,
            DeployEventView::DeploymentFound { namespace, name },
        ) == deploy,
{
}

/// The prefix of a deploy is the one that the first entry of the configuration for its
/// component has; without such an entry there is none.
pub proof fn law_the_configured_prefix_is_kept(
    deploy: DeployView,
    config: Seq<(Seq<char>, Option<Seq<char>>)>,
    i: int,
)
    requires
        0 <= i <= config.len(),
        forall|k: int| 0 <= k < i ==> (#[trigger] config[k]).0 != deploy.component,
        i < config.len() ==> config[i].0 == deploy.component,
    ensures
        deploy.step is LoadConfig ==> deploy::after_event(
            deploy,
            DeployEventView::ConfigLoaded(config),
        ) == (DeployView {
            step: DeployStep::BuildMappings,
            installer_set_prefix: if i < config.len() {
                config[i].1
            } else {
                None
            },
            ..deploy
        }),
        deploy.step !is LoadConfig ==> deploy::after_event(
            deploy,
            DeployEventView::ConfigLoaded(config),
        ) == deploy,
{
    lemma_first_entry(config, deploy.component, i);
}

/// The first entry for a component counts.
proof fn lemma_first_entry(
    config: Seq<(Seq<char>, Option<Seq<char>>)>,
    component: Seq<char>,
    i: int,
)
    requires
        0 <= i <= config.len(),
        forall|k: int| 0 <= k < i ==> (#[trigger] config[k]).0 != component,
        i < config.len() ==> config[i].0 == component,
    ensures
        deploy::configured_prefix(config, component) == if i < config.len() {
            config[i].1
        } else {
            None
        },
    decreases config.len(),
{
    if i > 0 {
        let rest = config.skip(1);
        assert(config[0].0 != component);
        assert forall|k: int| 0 <= k < i - 1 implies (#[trigger] rest[k]).0 != component by {
            assert(rest[k] == config[k + 1]);
        }
        if i < config.len() {
            assert(rest[i - 1] == config[i]);
        }
        lemma_first_entry(rest, component, i - 1);
    }
}

/// The look at the variables decides: a deploy goes on where they are there, and ends as
/// reverted where they are not.
pub proof fn law_the_look_at_the_variables_decides(deploy: DeployView, ok: bool)
    ensures
        deploy.step is VerifyEnv ==> deploy::after_event(deploy, DeployEventView::EnvVerified(ok))
            == (DeployView {
            step: if ok {
                DeployStep::EnsurePullAccess
            } else {
                DeployStep::EnvReverted
            },
            ..deploy
        }),
        deploy.step !is VerifyEnv ==> deploy::after_event(deploy, DeployEventView::EnvVerified(ok))
            == deploy,
{
}

/// A failure changes nothing but the step, and nothing at all where the deploy has ended.
pub proof fn law_what_follows_failure(deploy: DeployView)
    ensures
        ({
            let after = deploy::after_event(deploy, DeployEventView::Failed);
            &&& after == (DeployView { step: after.step, ..deploy })
            &&& after.step == match deploy.step {
                DeployStep::AwaitReconciliation => DeployStep::Complete { reconciled: false },
                DeployStep::Complete { reconciled } => DeployStep::Complete { reconciled },
                DeployStep::EnvReverted => DeployStep::EnvReverted,
                _ => DeployStep::StepFailed,
            }
        }),
{
}

/// What one step brings, the later ones have: from the mappings, whatever they are, to
/// the patch and to the look at the variables.
pub proof fn law_patch_and_check_have_what_was_built(
    deploy: DeployView,
    mappings: Seq<(Seq<char>, Seq<char>)>,
    namespace: Seq<char>,
    name: Seq<char>,
)
    requires
        deploy.step is BuildMappings,
    ensures
        ({
            let built = deploy::after_event(deploy, DeployEventView::MappingsBuilt(mappings));
            let shown = deploy::after_event(built, DeployEventView::Succeeded);
            let patch = deploy::after_event(
                shown,
                DeployEventView::DeploymentFound { namespace, name },
            );
            let restart = deploy::after_event(patch, DeployEventView::Succeeded);
            let check = deploy::after_event(restart, DeployEventView::Succeeded);
            &&& patch.step is PatchDeployment && restart.step is RestartPod && check.step
                is VerifyEnv
            &&& patch.mappings == mappings && check.mappings == mappings
            &&& patch.namespace == namespace && restart.namespace == namespace && check.namespace
                == namespace
            &&& patch.deployment_name == name && restart.deployment_name == name
                && check.deployment_name == name
            &&& check.component == deploy.component && check.installer_set_prefix
                == deploy.installer_set_prefix && check.internal_registry
                == deploy.internal_registry
        }),
{
}

/// The model of an event has all that it brings, in its order.
pub proof fn law_events_are_kept(
    config: Vec<(String, Option<String>)>,
    mappings: Vec<(String, String)>,
    namespace: String,
    name: String,
    ok: bool,
)
    ensures
        DeployEvent::Succeeded@ == DeployEventView::Succeeded,
        (DeployEvent::ConfigLoaded(config))@ matches DeployEventView::ConfigLoaded(list)
            && list.len() == config@.len() && forall|i: int|
            0 <= i < list.len() ==> (#[trigger] list[i]).0 == config@[i].0@
                && match config@[i].1 {
                Some(prefix) => list[i].1 == Some(prefix@),
                None => list[i].1 is None,
            },
        (DeployEvent::MappingsBuilt(mappings))@ matches DeployEventView::MappingsBuilt(list)
            && list.len() == mappings@.len() && forall|i: int|
            0 <= i < list.len() ==> #[trigger] list[i] == (mappings@[i].0@, mappings@[i].1@),
        (DeployEvent::DeploymentFound { namespace, name })@ == (DeployEventView::DeploymentFound {
            namespace: namespace@,
            name: name@,
        }),
        (DeployEvent::EnvVerified(ok))@ == DeployEventView::EnvVerified(ok),
        DeployEvent::Failed@ == DeployEventView::Failed,
{
}

} // verus!

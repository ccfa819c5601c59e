//! What every run of the installation of a bundle satisfies.

use vstd::prelude::*;
use crate::operations::install::bundle::{
    first_decisive, run_failed, selected_group, BundleRun, BundleRunAction, BundleRunError,
    BundleRunEvent, BundleRunPhase, BundleRunRequest, InstallSource, InstallTarget, SelectError,
    SignatureCheck, SourceError, SourcePlan,
};
use crate::operations::install::system::SystemRebootMode;
use crate::run::Run;
use crate::system::boot_groups::{
    law_group_is_found_by_its_name, law_inactive_group_is_found, BootGroups,
};

verus! {

/// What comes of an action: an outcome, or what is known of the system.
pub enum BundleOutcome {
    Event(BundleRunEvent),
    Ready { groups: BootGroups, needs_commit: bool },
}

impl BundleOutcome {
    /// Whether the action succeeded.
    pub open spec fn done(self) -> bool {
        self == BundleOutcome::Event(BundleRunEvent::Done)
    }
}

/// A run of an installation.
pub type BundleRunRun = Run<BundleRun, BundleRunAction, BundleOutcome>;

/// Whether an outcome leads from a state to another one and to the next action.
pub open spec fn run_follows(
    request: BundleRunRequest,
    before: BundleRun,
    outcome: BundleOutcome,
    after: BundleRun,
    action: BundleRunAction,
) -> bool {
    match outcome {
        BundleOutcome::Event(event) => (after.phase, action) == before.step(request, event)
            && after.target == before.target,
        BundleOutcome::Ready { groups, needs_commit } => {
            &&& before.phase is Initializing
            &&& request.target is System
            &&& groups.groups@.len() <= usize::MAX
            &&& match selected_group(groups, request.requested_group(), needs_commit) {
                Ok(target) => after.target == target && (after.phase, action)
                    == request.to_indices(),
                Err(e) => after.target == before.target && (after.phase, action) == run_failed(
                    BundleRunError::Select(e),
                ),
            }
        },
    }
}

/// Whether these are the states, actions and outcomes of an installation from its beginning.
pub open spec fn is_bundle_run(run: BundleRunRun, request: BundleRunRequest) -> bool {
    &&& run.wf()
    &&& (run.states[0].phase, run.actions[0]) == request.first()
    &&& run.states[0].target is None
    &&& forall|i: int| #[trigger]
        run.has(i) ==> run_follows(
            request,
            run.states[i],
            run.events[i],
            run.states[i + 1],
            run.actions[i + 1],
        )
}

/// What follows the installation unless told otherwise, once the payloads are installed.
pub open spec fn suggested_mode(events: Seq<BundleOutcome>, i: int) -> Option<SystemRebootMode>
    decreases i,
{
    if i <= 0 {
        None
    } else {
        match events[i - 1] {
            BundleOutcome::Event(BundleRunEvent::Installed(mode)) => Some(mode),
            _ => suggested_mode(events, i - 1),
        }
    }
}

/// What follows the installation: what is asked for, or else what is suggested.
pub open spec fn chosen_mode(
    request: BundleRunRequest,
    suggested: Option<SystemRebootMode>,
) -> Option<SystemRebootMode> {
    match request.target {
        InstallTarget::Apps => Some(SystemRebootMode::No),
        InstallTarget::System { reboot, .. } => if reboot is Some {
            reboot
        } else {
            suggested
        },
    }
}

/// Whether a bundle is read as its source allows: one over HTTP comes without an input and
/// uses range queries where they are of use and not disabled; any other one comes from the
/// input.
pub open spec fn is_plan_for(
    request: BundleRunRequest,
    range_queries_available: bool,
    plan: SourcePlan,
) -> bool {
    match request.source {
        InstallSource::Http { disable_range_queries, .. } => request.input is Nothing && plan == (
        SourcePlan::Http { use_range_queries: range_queries_available && !disable_range_queries }),
        InstallSource::Stream => match plan {
            SourcePlan::SkipByReading => request.input is Stream,
            SourcePlan::SkipBySeeking => request.input is Seekable,
            SourcePlan::Http { .. } => false,
        },
    }
}

/// Whether an outcome is one of the action.
pub open spec fn run_fits(action: BundleRunAction, outcome: BundleOutcome) -> bool {
    match outcome {
        BundleOutcome::Ready { .. } => action is InitializeSystem,
        BundleOutcome::Event(event) => match action {
            BundleRunAction::InitializeSystem => false,
            BundleRunAction::QueryIndices => event is Indices,
            BundleRunAction::VerifySignatures => event is Verified,
            BundleRunAction::InstallPayloads { .. } => event is Installed,
            BundleRunAction::Done => false,
            BundleRunAction::Fail(_) => false,
            _ => event is Done,
        },
    }
}

spec fn awaits(phase: BundleRunPhase, action: BundleRunAction) -> bool {
    match phase {
        BundleRunPhase::Locking => action is LockUpdate,
        BundleRunPhase::Announcing => action is EmitStarted,
        BundleRunPhase::OpeningManager => action is OpenAppManager,
        BundleRunPhase::Initializing => action is InitializeSystem,
        BundleRunPhase::QueryingIndices => action is QueryIndices,
        BundleRunPhase::OpeningSource => action is OpenSource,
        BundleRunPhase::StartingReader => action is StartReader,
        BundleRunPhase::Verifying => action is VerifySignatures,
        BundleRunPhase::Installing => action is InstallPayloads,
        BundleRunPhase::SettingNext { .. } => action is SetTryNext,
        BundleRunPhase::Rebooting => action is Reboot,
        BundleRunPhase::Deferring => action is DeferTarget || action is DeferSpare,
        BundleRunPhase::Finished => action is Done || action is Fail,
    }
}

spec fn reached(request: BundleRunRequest, state: BundleRun, action: BundleRunAction) -> bool {
    match state.phase {
        BundleRunPhase::Locking => request.target is System,
        BundleRunPhase::Announcing => request.flow is Operation,
        BundleRunPhase::OpeningManager => request.target is Apps,
        BundleRunPhase::Initializing => request.target is System,
        BundleRunPhase::QueryingIndices => request.target is System && request.source is Http,
        BundleRunPhase::Verifying => !request.has_bundle_hash,
        BundleRunPhase::Installing => action == (BundleRunAction::InstallPayloads {
            target: state.target,
        }),
        _ => true,
    }
}

proof fn lemma_awaits(run: BundleRunRun, request: BundleRunRequest, i: int)
    requires
        is_bundle_run(run, request),
        0 <= i < run.actions.len(),
    ensures
        awaits(run.states[i].phase, run.actions[i]),
        reached(request, run.states[i], run.actions[i]),
        run.states[i].phase matches BundleRunPhase::SettingNext { reboot } ==> chosen_mode(
            request,
            suggested_mode(run.events, i),
        ) == Some(
            if reboot {
                SystemRebootMode::Yes
            } else {
                SystemRebootMode::SetNext
            },
        ),
    decreases i,
{
    if i > 0 {
        assert(run.has(i - 1));
        lemma_awaits(run, request, i - 1);
    }
}

/// A system is updated only under the lock that keeps updates apart, which is taken first. An
/// operation reports that it has started. Then the system or the app manager is made ready,
/// as the target demands, and the bundle is opened as its source allows.
pub proof fn law_bundle_is_opened_in_order(run: BundleRunRun, request: BundleRunRequest, i: int)
    requires
        is_bundle_run(run, request),
        run.has(i),
    ensures
        ({
            let first = run.actions[0];
            let before = run.actions[i];
            let outcome = run.events[i];
            let after = run.actions[i + 1];
            let operation = request.flow is Operation;
            let system = request.target is System;
            &&& system <==> first is LockUpdate
            &&& !system && operation ==> first is EmitStarted
            &&& !system && !operation ==> first is OpenAppManager
            &&& !(after is LockUpdate)
            &&& after is EmitStarted ==> operation && before is LockUpdate && outcome.done()
            &&& after is OpenAppManager ==> !system && before is EmitStarted && outcome.done()
            &&& after is InitializeSystem ==> system && outcome.done() && if operation {
                before is EmitStarted
            } else {
                before is LockUpdate
            }
            &&& after is QueryIndices ==> system && request.source is Http
                && before is InitializeSystem && outcome is Ready
            &&& after matches BundleRunAction::OpenSource(plan) ==> ({
                ||| before is OpenAppManager && outcome.done() && is_plan_for(request, false, plan)
                ||| before is InitializeSystem && outcome is Ready && !(request.source is Http)
                    && is_plan_for(request, false, plan)
                ||| before is QueryIndices && (outcome matches BundleOutcome::Event(
                    BundleRunEvent::Indices(available),
                ) && is_plan_for(request, available, plan))
            })
            &&& after is StartReader ==> before is OpenSource && outcome.done()
        }),
{
    lemma_awaits(run, request, i);
    lemma_awaits(run, request, i + 1);
    lemma_awaits(run, request, 0);
}

/// Payloads are installed only from a bundle that is verified: by its digest, which is checked
/// when it is read, or else by its signatures, unless that is explicitly waived. They go to
/// the group that was selected.
pub proof fn law_only_verified_bundles_are_installed(
    run: BundleRunRun,
    request: BundleRunRequest,
    i: int,
)
    requires
        is_bundle_run(run, request),
        run.has(i),
    ensures
        ({
            let before = run.actions[i];
            let outcome = run.events[i];
            let after = run.actions[i + 1];
            let verdict = outcome->Event_0;
            &&& after is VerifySignatures ==> !request.has_bundle_hash && before is StartReader
                && outcome.done()
            &&& before is StartReader && outcome.done() && !request.has_bundle_hash
                ==> after is VerifySignatures
            &&& after matches BundleRunAction::InstallPayloads { target } ==> target
                == run.states[i].target && if request.has_bundle_hash {
                before is StartReader && outcome.done()
            } else {
                before is VerifySignatures && outcome is Event && verdict is Verified && (
                verdict->Verified_0 || request.insecure_skip_bundle_verification)
            }
            &&& before is VerifySignatures && outcome is Event && verdict is Verified && (
            verdict->Verified_0 || request.insecure_skip_bundle_verification)
                ==> after is InstallPayloads
            &&& outcome matches BundleOutcome::Ready { groups, needs_commit } ==> (selected_group(
                groups,
                request.requested_group(),
                needs_commit,
            ) matches Ok(target) ==> run.states[i + 1].target == target)
            &&& !(outcome is Ready) ==> run.states[i + 1].target == run.states[i].target
        }),
{
    lemma_awaits(run, request, i);
    lemma_awaits(run, request, i + 1);
}

/// What follows an installation is what is asked for, or else what the installation suggests:
/// the group that was installed to is tried next, with a reboot or without; or that is left to
/// the next boot; or nothing follows. Nothing is booted before the payloads are installed.
#[verifier::rlimit(40)]
pub proof fn law_installed_group_is_booted_as_asked(
    run: BundleRunRun,
    request: BundleRunRequest,
    i: int,
)
    requires
        is_bundle_run(run, request),
        run.has(i),
    ensures
        ({
            let before = run.actions[i];
            let outcome = run.events[i];
            let after = run.actions[i + 1];
            let mode = chosen_mode(request, suggested_mode(run.events, i + 1));
            let installed = before is InstallPayloads && outcome is Event
                && outcome->Event_0 is Installed;
            &&& after matches BundleRunAction::SetTryNext { group } ==> installed && before == (
            BundleRunAction::InstallPayloads { target: Some(group) }) && (mode == Some(
                SystemRebootMode::Yes,
            ) || mode == Some(SystemRebootMode::SetNext))
            &&& after is Reboot ==> before is SetTryNext && outcome.done() && mode == Some(
                SystemRebootMode::Yes,
            )
            &&& after matches BundleRunAction::DeferTarget { group } ==> installed && before == (
            BundleRunAction::InstallPayloads { target: Some(group) }) && mode == Some(
                SystemRebootMode::Deferred,
            ) && request.flow is Operation
            &&& after is DeferSpare ==> installed && mode == Some(SystemRebootMode::Deferred)
                && request.flow is Command
            &&& after is Done ==> ({
                ||| installed && mode == Some(SystemRebootMode::No)
                ||| before is SetTryNext && outcome.done() && mode == Some(
                    SystemRebootMode::SetNext,
                )
                ||| (before is Reboot || before is DeferTarget || before is DeferSpare)
                    && outcome.done()
            })
        }),
{
    lemma_awaits(run, request, i);
    lemma_awaits(run, request, i + 1);
}

/// An installation fails for a reason, and only for one.
pub proof fn law_bundle_installation_fails_for_a_reason(
    run: BundleRunRun,
    request: BundleRunRequest,
    i: int,
)
    requires
        is_bundle_run(run, request),
        run.has(i),
    ensures
        ({
            let before = run.actions[i];
            let outcome = run.events[i];
            let after = run.actions[i + 1];
            let verdict = outcome->Event_0;
            let mode = chosen_mode(request, suggested_mode(run.events, i + 1));
            &&& outcome == BundleOutcome::Event(BundleRunEvent::Failed) ==> after
                == BundleRunAction::Fail(BundleRunError::ActionFailed)
            &&& before is Done || before is Fail ==> after is Fail
            &&& after matches BundleRunAction::Fail(error) ==> match error {
                BundleRunError::ActionFailed => outcome == BundleOutcome::Event(
                    BundleRunEvent::Failed,
                ),
                BundleRunError::UnexpectedOutcome => !run_fits(before, outcome),
                BundleRunError::Select(e) => before is InitializeSystem && (outcome matches
                    BundleOutcome::Ready { groups, needs_commit } && selected_group(
                    groups,
                    request.requested_group(),
                    needs_commit,
                ) == Err::<Option<usize>, _>(e)),
                BundleRunError::Source(e) => if request.source is Http {
                    e == SourceError::UnexpectedInput && !(request.input is Nothing)
                } else {
                    e == SourceError::InputRequired && request.input is Nothing
                },
                BundleRunError::Unverified(kind) => before is VerifySignatures && outcome
                    == BundleOutcome::Event(BundleRunEvent::Verified(false))
                    && !request.insecure_skip_bundle_verification && !request.has_bundle_hash && (
                kind is App <==> request.target is Apps),
                BundleRunError::MissingTarget(needed) => before == (
                BundleRunAction::InstallPayloads { target: None }) && mode == Some(needed)
                    && needed != SystemRebootMode::No,
            }
        }),
{
    lemma_awaits(run, request, i);
    lemma_awaits(run, request, i + 1);
}

/// The group to install to is the one of the requested name, where it is inactive. Without a
/// request it is the inactive one, where there are at most two groups. There is none while the
/// running system needs a commit.
pub proof fn law_group_is_selected_as_requested(
    groups: BootGroups,
    requested: Option<Seq<char>>,
    needs_commit: bool,
)
    requires
        groups.groups@.len() <= usize::MAX,
    ensures
        ({
            let all = groups.groups@;
            let named = |k: int|
                0 <= k < all.len() && requested is Some && all[k].name@ == requested->0;
            match selected_group(groups, requested, needs_commit) {
                Err(SelectError::NeedsCommit) => needs_commit,
                Err(SelectError::UnknownGroup) => !needs_commit && requested is Some && forall|
                    k: int,
                |
                    0 <= k < all.len() ==> (#[trigger] all[k]).name@ != requested->0,
                Err(SelectError::ActiveGroup { group }) => !needs_commit && named(group as int)
                    && all[group as int].active,
                Ok(Some(group)) => !needs_commit && group < all.len() && !all[group as int].active
                    && if requested is Some {
                    named(group as int) && forall|k: int|
                        0 <= k < group ==> (#[trigger] all[k]).name@ != requested->0
                } else {
                    all.len() <= 2 && forall|k: int|
                        0 <= k < group ==> (#[trigger] all[k]).active
                },
                Ok(None) => !needs_commit && requested is None && (all.len() > 2 || forall|k: int|
                    0 <= k < all.len() ==> (#[trigger] all[k]).active),
            }
        }),
{
    if requested is Some {
        law_group_is_found_by_its_name(groups.groups@, requested->0);
    }
    law_inactive_group_is_found(groups.groups@);
}

proof fn lemma_decisive(checks: Seq<SignatureCheck>, from: nat)
    ensures
        match first_decisive(checks, from) {
            Ok(true) => exists|k: int|
                from <= k < checks.len() && is_decided(checks, from as int, k) && (
                #[trigger] checks[k]).valid(),
            Err(()) => exists|k: int|
                from <= k < checks.len() && is_decided(checks, from as int, k) && (
                #[trigger] checks[k]) is Undecodable,
            Ok(false) => forall|k: int|
                from <= k < checks.len() ==> !(#[trigger] checks[k]).valid()
                    && !(checks[k] is Undecodable),
        },
    decreases checks.len() - from,
{
    if from < checks.len() {
        if checks[from as int] is Undecodable || checks[from as int].valid() {
            assert(is_decided(checks, from as int, from as int));
        } else {
            lemma_decisive(checks, from + 1);
            assert forall|k: int| is_decided(checks, from as int + 1, k) implies #[trigger] is_decided(
                checks,
                from as int,
                k,
            ) by {}
        }
    }
}

/// Whether no check from `from` up to, and without, `k` decides.
pub open spec fn is_decided(checks: Seq<SignatureCheck>, from: int, k: int) -> bool {
    forall|j: int|
        from <= j < k ==> !(#[trigger] checks[j]).valid() && !(checks[j] is Undecodable)
}

/// Signatures verify a bundle by a single root only where one of them is valid and none before
/// it signs what cannot be decoded.
pub proof fn law_first_decisive_signature_decides(checks: Seq<SignatureCheck>)
    ensures
        match first_decisive(checks, 0) {
            Ok(true) => exists|k: int|
                0 <= k < checks.len() && is_decided(checks, 0, k) && (#[trigger] checks[k]).valid(),
            Err(()) => exists|k: int|
                0 <= k < checks.len() && is_decided(checks, 0, k) && (
                #[trigger] checks[k]) is Undecodable,
            Ok(false) => forall|k: int|
                0 <= k < checks.len() ==> !(#[trigger] checks[k]).valid()
                    && !(checks[k] is Undecodable),
        },
        forall|check: SignatureCheck| #[trigger]
            check.valid() ==> (check matches SignatureCheck::Signed { signed, found } && signed@
                == found@),
{
    lemma_decisive(checks, 0);
}

} // verus!

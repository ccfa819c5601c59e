//! What every run of an app installation satisfies.

use vstd::prelude::*;
use crate::digest::HashDigest;
use crate::operations::install::app_bundle::{app_bundle_error, AppBundleError};
use crate::operations::install::apps::{
    app_position, delta_candidate, first_app_step, is_delta_input, lemma_next_created,
    lemma_previous_created, next_created, previous_created, AppAction, AppEvent, AppInstall,
    AppInstallError, AppInstallRequest, AppPayloadFacts, AppPayloadKind, AppPhase, DeltaCandidate,
};
use crate::operations::install::system::InstallFlow;
use crate::path::is_contained;
use crate::run::Run;
use crate::text::views;

verus! {

/// A run of an installation.
pub type AppRun = Run<AppInstall, AppAction, AppEvent>;

/// Whether these are the states, actions and outcomes of an installation from its beginning.
pub open spec fn is_app_run(run: AppRun, request: AppInstallRequest) -> bool {
    &&& run.wf()
    &&& run.states[0].wf(request)
    &&& run.states[0].payload is None
    &&& run.states[0].apps@.len() <= usize::MAX
    &&& forall|k: int|
        0 <= k < run.states[0].apps@.len() ==> (#[trigger] run.states[0].generations@[k]) is None
    &&& (run.states[0].phase, run.actions[0]) == first_app_step(request, run.states[0].apps@.len())
    &&& forall|i: int| #[trigger]
        run.has(i) ==> run.states[i].follows(
            request,
            run.events[i],
            run.states[i + 1],
            run.actions[i + 1],
        )
}

/// The number of apps of the bundle.
pub open spec fn app_count(run: AppRun) -> nat {
    run.states[0].apps@.len()
}

/// The generation that an app has got before the action `i`.
pub open spec fn generation_of(run: AppRun, i: int, app: int) -> Option<u64> {
    run.states[i].generations@[app]
}

/// The payload whose header was read last before the action `i`.
pub open spec fn read_app_payload(events: Seq<AppEvent>, i: int) -> Option<AppPayloadFacts>
    decreases i,
{
    if i <= 0 {
        None
    } else {
        match events[i - 1] {
            AppEvent::Payload(payload) => Some(payload),
            _ => read_app_payload(events, i - 1),
        }
    }
}

/// Whether a payload belongs to an app of the bundle.
pub open spec fn belongs_to(run: AppRun, payload: AppPayloadFacts, app: usize) -> bool {
    &&& app < app_count(run)
    &&& match payload.kind {
        AppPayloadKind::File { app: name, .. } => run.states[0].apps@[app as int]@ == name@,
        AppPayloadKind::Archive { app: name } => run.states[0].apps@[app as int]@ == name@,
        AppPayloadKind::Other => false,
    }
}

/// Whether an outcome is one of the action.
pub open spec fn app_fits(action: AppAction, event: AppEvent) -> bool {
    match action {
        AppAction::Done => false,
        AppAction::Fail(_) => false,
        AppAction::CheckComponents => event is Done || event is Incompatible,
        AppAction::NextPayload => event is Payload || event is End,
        AppAction::CreateGeneration { .. } => event is Created,
        AppAction::FindCandidates { .. } => event is Candidates,
        AppAction::WriteDelta { .. } => event is Written,
        AppAction::WriteFile { .. } => event is Written,
        AppAction::ReadCurrent { .. } => event is Current,
        _ => event is Done,
    }
}

/// Whether the file of a candidate is there and has one of the digests.
pub open spec fn is_source(candidate: DeltaCandidate, hashes: Seq<HashDigest>) -> bool {
    &&& candidate.complete
    &&& candidate.present
    &&& exists|a: int, b: int|
        0 <= a < hashes.len() && 0 <= b < candidate.hashes@.len() && #[trigger] hashes[a]@
            == #[trigger] candidate.hashes@[b]@
}

/// Whether an action writes a file of an app, as a difference where it is encoded as one.
pub open spec fn writes_app_file(action: AppAction, payload: AppPayloadFacts, app: usize) -> bool {
    if payload.delta_encoding is Some {
        action matches AppAction::WriteDelta { app: written, .. } && written == app
    } else {
        action == (AppAction::WriteFile { app })
    }
}

/// Whether what was written is what it should be: a decoded difference has its digest.
pub open spec fn is_intact(event: AppEvent, payload: AppPayloadFacts) -> bool {
    event is Written && (payload.delta_encoding is Some ==> event->digest@
        == payload.delta_encoding->0.original_hash@)
}

/// Whether the content of a payload is in the generation of its app once the outcome of an
/// action is known: an archive is unpacked; a file is written and has its permissions, where
/// it has any; and anything else is skipped.
pub open spec fn is_installed(
    action: AppAction,
    event: AppEvent,
    payload: AppPayloadFacts,
    app: usize,
) -> bool {
    match payload.kind {
        AppPayloadKind::Archive { .. } => action == (AppAction::Unpack { app }) && event is Done,
        AppPayloadKind::File { has_mode, .. } => if has_mode {
            action == (AppAction::SetMode { app }) && event is Done
        } else {
            writes_app_file(action, payload, app) && is_intact(event, payload)
        },
        AppPayloadKind::Other => action is Skip && event is Done,
    }
}

spec fn awaits(phase: AppPhase, action: AppAction) -> bool {
    match phase {
        AppPhase::Locking { app } => action == (AppAction::Lock { app }),
        AppPhase::ReportingSkip => action is ReportSkip,
        AppPhase::Checking => action is CheckComponents,
        AppPhase::ReportingIncompatible => action is ReportIncompatible,
        AppPhase::Reading => action is NextPayload,
        AppPhase::Creating { app } => action == (AppAction::CreateGeneration { app }),
        AppPhase::CheckingLinks { app } => action == (AppAction::CheckLinks { app }),
        AppPhase::CreatingParent { app } => action == (AppAction::CreateParent { app }),
        AppPhase::ProvidingBlocks { app } => action == (AppAction::ProvideBlocks { app }),
        AppPhase::FindingCandidates { app } => action == (AppAction::FindCandidates { app }),
        AppPhase::Writing { app, delta } => if delta {
            action matches AppAction::WriteDelta { app: written, .. } && written == app
        } else {
            action == (AppAction::WriteFile { app })
        },
        AppPhase::SettingMode { app } => action == (AppAction::SetMode { app }),
        AppPhase::CreatingTemporary { app } => action == (AppAction::CreateTemporary { app }),
        AppPhase::DecodingArchive { app } => action == (AppAction::DecodeArchive { app }),
        AppPhase::ValidatingArchive { app } => action == (AppAction::ValidateArchive { app }),
        AppPhase::Unpacking { app } => action == (AppAction::Unpack { app }),
        AppPhase::Skipping => action is Skip,
        AppPhase::SavingStates { app } => action == (AppAction::SavePayloadStates { app }),
        AppPhase::WritingComponents { app } => action == (AppAction::WriteComponents { app }),
        AppPhase::WritingMetadata { app } => action == (AppAction::WriteMetadata { app }),
        AppPhase::Finalizing { app } => action == (AppAction::Finalize { app }),
        AppPhase::ReadingCurrent { app } => action == (AppAction::ReadCurrent { app }),
        AppPhase::Activating { app } => action matches AppAction::Activate { app: activated, .. }
            && activated == app,
        AppPhase::RollingBack { app, .. } => action matches AppAction::RollBack { app: rolled, .. }
            && rolled == app,
        AppPhase::Finished => action is Done || action is Fail,
    }
}

/// What holds where a phase is reached.
spec fn reached(request: AppInstallRequest, state: AppInstall) -> bool {
    let payload = state.payload->0;
    match state.phase {
        AppPhase::CheckingLinks { .. } => payload.kind is File,
        AppPhase::CreatingParent { .. } => payload.kind is File,
        AppPhase::ProvidingBlocks { .. } => payload.kind is File
            && !request.allow_missing_block_index && payload.has_block_index,
        AppPhase::FindingCandidates { .. } => payload.kind is File
            && payload.delta_encoding is Some,
        AppPhase::Writing { delta, .. } => payload.kind is File && delta
            == payload.delta_encoding is Some,
        AppPhase::SettingMode { .. } => payload.kind is File && payload.kind->has_mode,
        AppPhase::Creating { .. } => !(payload.kind is Other) && (payload.kind is File
            ==> is_contained(payload.kind->path@)),
        AppPhase::CreatingTemporary { .. } => payload.kind is Archive,
        AppPhase::DecodingArchive { .. } => payload.kind is Archive,
        AppPhase::ValidatingArchive { .. } => payload.kind is Archive,
        AppPhase::Unpacking { .. } => payload.kind is Archive,
        AppPhase::Skipping => state.payload is Some && payload.kind is Other,
        _ => true,
    }
}

proof fn lemma_awaits(run: AppRun, request: AppInstallRequest, i: int)
    requires
        is_app_run(run, request),
        0 <= i < run.actions.len(),
    ensures
        awaits(run.states[i].phase, run.actions[i]),
        run.states[i].wf(request),
        run.states[i].apps == run.states[0].apps,
        reached(request, run.states[i]),
    decreases i,
{
    if i > 0 {
        assert(run.has(i - 1));
        lemma_awaits(run, request, i - 1);
    }
}

proof fn lemma_position(apps: Seq<Seq<char>>, app: Seq<char>, from: nat)
    requires
        apps.len() <= usize::MAX,
    ensures
        match app_position(apps, app, from) {
            Some(i) => from <= i < apps.len() && apps[i as int] == app,
            None => forall|k: int| from <= k < apps.len() ==> #[trigger] apps[k] != app,
        },
    decreases apps.len() - from,
{
    if from < apps.len() && apps[from as int] != app {
        lemma_position(apps, app, from + 1);
    }
}

proof fn lemma_candidate(candidates: Seq<DeltaCandidate>, hashes: Seq<HashDigest>, from: nat)
    requires
        candidates.len() <= usize::MAX,
    ensures
        match delta_candidate(candidates, hashes, from) {
            Some(s) => from <= s < candidates.len() && is_source(candidates[s as int], hashes)
                && forall|k: int| from <= k < s ==> !is_source(#[trigger] candidates[k], hashes),
            None => forall|k: int|
                from <= k < candidates.len() ==> !is_source(#[trigger] candidates[k], hashes),
        },
    decreases candidates.len() - from,
{
    if from < candidates.len() {
        assert(is_source(candidates[from as int], hashes) == is_delta_input(
            candidates[from as int],
            hashes,
        ));
        if !is_delta_input(candidates[from as int], hashes) {
            lemma_candidate(candidates, hashes, from + 1);
        }
    }
}

/// The payload and its app, while it is installed.
proof fn lemma_payload(run: AppRun, request: AppInstallRequest, i: int)
    requires
        is_app_run(run, request),
        0 <= i < run.actions.len(),
    ensures
        run.states[i].phase is Finished || run.states[i].payload == read_app_payload(
            run.events,
            i,
        ),
        run.states[i].phase.installs_payload() ==> belongs_to(
            run,
            run.states[i].payload->0,
            run.states[i].phase.app()->0,
        ),
        run.states[i].phase.installs_payload() && !(run.states[i].phase is Creating)
            ==> generation_of(run, i, run.states[i].phase.app()->0 as int) is Some,
    decreases i,
{
    lemma_awaits(run, request, i);
    if i > 0 {
        assert(run.has(i - 1));
        lemma_awaits(run, request, i - 1);
        lemma_payload(run, request, i - 1);
        if let AppEvent::Payload(payload) = run.events[i - 1] {
            if run.states[i - 1].phase is Reading {
                let apps = views(run.states[0].apps@);
                match payload.kind {
                    AppPayloadKind::File { app, .. } => {
                        lemma_position(apps, app@, 0);
                    },
                    AppPayloadKind::Archive { app } => {
                        lemma_position(apps, app@, 0);
                    },
                    AppPayloadKind::Other => {},
                }
            }
        }
    }
}

/// An installation begins only with the payloads of an app bundle and with components that
/// are valid and have one owner. Every app is locked before anything else, in order; then the
/// components are checked, unless that is not wanted.
pub proof fn law_apps_are_locked_first(run: AppRun, request: AppInstallRequest, i: int)
    requires
        is_app_run(run, request),
        run.has(i),
    ensures
        ({
            let first = run.actions[0];
            let n = app_count(run);
            let operation = request.flow == InstallFlow::Operation;
            &&& app_bundle_error(request.deliveries@) matches Some(e) ==> first == AppAction::Fail(
                AppInstallError::Bundle(e),
            )
            &&& app_bundle_error(request.deliveries@) is None && request.has_components
                && !request.components_valid ==> first == AppAction::Fail(
                AppInstallError::InvalidComponents,
            )
            &&& app_bundle_error(request.deliveries@) is None && request.has_components
                && request.components_valid && n != 1 ==> first == AppAction::Fail(
                AppInstallError::Bundle(
                    if n == 0 {
                        AppBundleError::ComponentsWithoutApp
                    } else {
                        AppBundleError::ComponentsForManyApps
                    },
                ),
            )
            &&& app_bundle_error(request.deliveries@) is None && n > 0 && (request.has_components
                ==> request.components_valid && n == 1) ==> first == (AppAction::Lock { app: 0 })
        }),
        ({
            let before = run.actions[i];
            let event = run.events[i];
            let after = run.actions[i + 1];
            let n = app_count(run);
            let operation = request.flow == InstallFlow::Operation;
            let locked = before matches AppAction::Lock { app } && app + 1 == n && event is Done;
            &&& after matches AppAction::Lock { app } ==> app > 0 && before == (AppAction::Lock {
                app: (app - 1) as usize,
            }) && event is Done
            &&& after is ReportSkip ==> locked && request.skip_compatibility_check && operation
            &&& after is CheckComponents ==> locked && !request.skip_compatibility_check && (
            operation ==> request.has_components || !request.requires_components)
            &&& after == AppAction::Fail(AppInstallError::ComponentsRequired) ==> locked
                && !request.skip_compatibility_check && operation && !request.has_components
                && request.requires_components
            &&& after is ReportIncompatible ==> before is CheckComponents && event is Incompatible
            &&& after == AppAction::Fail(AppInstallError::Incompatible) ==> before is ReportIncompatible
                && event is Done
        }),
{
    lemma_awaits(run, request, i);
    lemma_awaits(run, request, i + 1);
    lemma_awaits(run, request, 0);
}

/// The next payload is read only once the current one is installed: an archive is unpacked, a
/// file is written and has its permissions, and anything else is skipped. The first one is
/// read once all apps are locked and the components are checked, as far as that is wanted.
pub proof fn law_payload_is_installed_before_the_next(
    run: AppRun,
    request: AppInstallRequest,
    i: int,
)
    requires
        is_app_run(run, request),
        run.has(i),
        run.actions[i + 1] is NextPayload,
    ensures
        ({
            let before = run.actions[i];
            let event = run.events[i];
            let payload = read_app_payload(run.events, i)->0;
            ||| read_app_payload(run.events, i) is Some && (payload.kind is Other && is_installed(
                before,
                event,
                payload,
                0,
            ) || exists|app: usize| #[trigger]
                belongs_to(run, payload, app) && is_installed(before, event, payload, app))
            ||| event is Done && (before is CheckComponents || before is ReportSkip)
            ||| event is Done && request.skip_compatibility_check && request.flow
                == InstallFlow::Command && before == (AppAction::Lock {
                app: (app_count(run) - 1) as usize,
            })
        }),
{
    lemma_awaits(run, request, i);
    lemma_awaits(run, request, i + 1);
    lemma_payload(run, request, i);
    if run.states[i].phase.installs_payload() {
        assert(belongs_to(run, run.states[i].payload->0, run.states[i].phase.app()->0));
    }
}

/// A payload is installed in its order. A payload whose app has no generation yet gets one.
/// Of a file, the path is checked for links and its directory is created before it is
/// written, with blocks provided unless the block index may be missing; a difference is
/// written from the first candidate that is its input. An archive is decoded, then checked,
/// then unpacked.
#[verifier::rlimit(80)]
pub proof fn law_app_payload_is_installed_in_order(run: AppRun, request: AppInstallRequest, i: int)
    requires
        is_app_run(run, request),
        run.has(i),
    ensures
        ({
            let before = run.actions[i];
            let event = run.events[i];
            let after = run.actions[i + 1];
            let payload = read_app_payload(run.events, i + 1)->0;
            let entered = before is NextPayload && event is Payload;
            &&& after is Skip ==> entered && payload.kind is Other
            &&& after matches AppAction::CreateGeneration { app } ==> entered && belongs_to(
                run,
                payload,
                app,
            ) && generation_of(run, i, app as int) is None
            &&& after matches AppAction::CheckLinks { app } ==> payload.kind is File && belongs_to(
                run,
                payload,
                app,
            ) && is_contained(payload.kind->path@) && ({
                ||| entered && generation_of(run, i, app as int) is Some
                ||| before == (AppAction::CreateGeneration { app }) && event is Created
            })
            &&& after matches AppAction::CreateTemporary { app } ==> payload.kind is Archive
                && belongs_to(run, payload, app) && ({
                ||| entered && generation_of(run, i, app as int) is Some
                ||| before == (AppAction::CreateGeneration { app }) && event is Created
            })
            &&& after matches AppAction::CreateParent { app } ==> before == (AppAction::CheckLinks {
                app,
            }) && event is Done
            &&& after matches AppAction::ProvideBlocks { app } ==> before == (
            AppAction::CreateParent { app }) && event is Done && !request.allow_missing_block_index
                && payload.has_block_index
            &&& after matches AppAction::FindCandidates { app } ==> event is Done && before == (
            if request.allow_missing_block_index {
                AppAction::CreateParent { app }
            } else {
                AppAction::ProvideBlocks { app }
            }) && payload.delta_encoding is Some && payload.delta_encoding->0.inputs@.len() == 1
            &&& after matches AppAction::WriteFile { app } ==> event is Done && before == (
            if request.allow_missing_block_index {
                AppAction::CreateParent { app }
            } else {
                AppAction::ProvideBlocks { app }
            }) && payload.delta_encoding is None
            &&& after matches AppAction::WriteDelta { app, candidate } ==> before == (
            AppAction::FindCandidates { app }) && event is Candidates && candidate
                < event->Candidates_0@.len() && is_source(
                event->Candidates_0@[candidate as int],
                payload.delta_encoding->0.inputs@[0]@,
            ) && forall|k: int|
                0 <= k < candidate ==> !is_source(
                    #[trigger] event->Candidates_0@[k],
                    payload.delta_encoding->0.inputs@[0]@,
                )
            &&& after matches AppAction::SetMode { app } ==> writes_app_file(before, payload, app)
                && is_intact(event, payload) && payload.kind is File && payload.kind->has_mode
            &&& after matches AppAction::DecodeArchive { app } ==> before == (
            AppAction::CreateTemporary { app }) && event is Done && (
            request.allow_missing_block_index || payload.has_block_index)
            &&& after matches AppAction::ValidateArchive { app } ==> before == (
            AppAction::DecodeArchive { app }) && event is Done
            &&& after matches AppAction::Unpack { app } ==> before == (
            AppAction::ValidateArchive { app }) && event is Done
            // What is checked is what is unpacked.
            &&& before matches AppAction::ValidateArchive { app } ==> event is Done ==> after == (
            AppAction::Unpack { app })
            &&& before matches AppAction::DecodeArchive { app } ==> event is Done ==> after == (
            AppAction::ValidateArchive { app })
        }),
{
    lemma_awaits(run, request, i);
    lemma_awaits(run, request, i + 1);
    lemma_payload(run, request, i);
    lemma_payload(run, request, i + 1);
    if let AppEvent::Candidates(candidates) = run.events[i] {
        if run.states[i].phase is FindingCandidates {
            assert(candidates@.len() == candidates.len());
            lemma_candidate(
                candidates@,
                run.states[i].payload->0.delta_encoding->0.inputs@[0]@,
                0,
            );
        }
    }
}

/// Whether an app is the first one from `from` on that has got a generation before the action
/// `i`.
pub open spec fn is_next_created(run: AppRun, i: int, from: int, app: usize) -> bool {
    &&& from <= app < app_count(run)
    &&& generation_of(run, i, app as int) is Some
    &&& forall|k: int| from <= k < app ==> #[trigger] generation_of(run, i, k) is None
}

/// Whether no app from `from` on has got a generation before the action `i`.
pub open spec fn none_created(run: AppRun, i: int, from: int) -> bool {
    forall|k: int| from <= k < app_count(run) ==> #[trigger] generation_of(run, i, k) is None
}

/// Whether it is the turn of an app to be completed: the first one once there are no more
/// payloads, and then the next one after each that is complete in an operation, or active
/// with the command.
pub open spec fn is_completed_next(
    run: AppRun,
    request: AppInstallRequest,
    i: int,
    app: usize,
) -> bool {
    ||| run.actions[i] is NextPayload && run.events[i] is End && is_next_created(run, i, 0, app)
    ||| request.flow == InstallFlow::Operation && run.events[i] is Done && (run.actions[i] matches
        AppAction::Finalize { app: last } && is_next_created(run, i, last + 1, app))
    ||| request.flow == InstallFlow::Command && run.events[i] is Done && (run.actions[i] matches
        AppAction::Activate { app: last, .. } && is_next_created(run, i, last + 1, app))
}

proof fn lemma_created(run: AppRun, request: AppInstallRequest, i: int)
    requires
        is_app_run(run, request),
        run.has(i),
    ensures
        next_created(run.states[i].generations@, 0) matches Some(app) ==> is_next_created(
            run,
            i,
            0,
            app,
        ),
        next_created(run.states[i].generations@, 0) is None ==> none_created(run, i, 0),
        run.states[i].phase.app() matches Some(last) ==> match next_created(
            run.states[i].generations@,
            (last + 1) as nat,
        ) {
            Some(app) => is_next_created(run, i, last + 1, app),
            None => none_created(run, i, last + 1),
        },
{
    lemma_awaits(run, request, i);
    let generations = run.states[i].generations@;
    lemma_next_created(generations, 0);
    if let Some(last) = run.states[i].phase.app() {
        lemma_next_created(generations, (last + 1) as nat);
    }
}

/// Every app with a new generation is completed, in order: what is known of its files is
/// stored where there are any, the components of the bundle are written into the generation
/// of their app, then its metadata, and only then it is marked as complete.
#[verifier::rlimit(60)]
pub proof fn law_generation_is_completed_in_order(run: AppRun, request: AppInstallRequest, i: int)
    requires
        is_app_run(run, request),
        run.has(i),
    ensures
        ({
            let before = run.actions[i];
            let event = run.events[i];
            let after = run.actions[i + 1];
            &&& after matches AppAction::SavePayloadStates { app } ==> is_completed_next(
                run,
                request,
                i,
                app,
            ) && run.states[i].states@[app as int]@.len() > 0
            &&& after matches AppAction::WriteComponents { app } ==> request.has_components && app
                == 0 && (before == (AppAction::SavePayloadStates { app }) && event is Done || (
            is_completed_next(run, request, i, app) && run.states[i].states@[app as int]@.len()
                == 0))
            &&& after matches AppAction::WriteMetadata { app } ==> ({
                ||| before == (AppAction::WriteComponents { app }) && event is Done
                ||| !(request.has_components && app == 0) && (before == (
                AppAction::SavePayloadStates { app }) && event is Done || (is_completed_next(
                    run,
                    request,
                    i,
                    app,
                ) && run.states[i].states@[app as int]@.len() == 0))
            })
            &&& after matches AppAction::Finalize { app } ==> before == (AppAction::WriteMetadata {
                app,
            }) && event is Done
        }),
{
    lemma_awaits(run, request, i);
    lemma_awaits(run, request, i + 1);
    lemma_created(run, request, i);
}

/// Apps are activated in order, each with the generation that it got. The command activates
/// an app once its generation is complete. An operation first completes all generations and
/// finds out what is active in each app, and then activates them. The installation is over
/// only once no app is left.
#[verifier::rlimit(60)]
pub proof fn law_apps_are_activated_in_order(run: AppRun, request: AppInstallRequest, i: int)
    requires
        is_app_run(run, request),
        run.has(i),
    ensures
        ({
            let before = run.actions[i];
            let event = run.events[i];
            let after = run.actions[i + 1];
            let operation = request.flow == InstallFlow::Operation;
            &&& after matches AppAction::ReadCurrent { app } ==> operation && ({
                ||| event is Done && (before matches AppAction::Finalize { app: last }
                    && none_created(run, i, last + 1) && is_next_created(run, i, 0, app))
                ||| event is Current && (before matches AppAction::ReadCurrent { app: last }
                    && is_next_created(run, i, last + 1, app))
            })
            &&& after matches AppAction::Activate { app, generation } ==> generation_of(
                run,
                i,
                app as int,
            ) == Some(generation) && if operation {
                ||| event is Current && (before matches AppAction::ReadCurrent { app: last }
                    && none_created(run, i, last + 1) && is_next_created(run, i, 0, app))
                ||| event is Done && (before matches AppAction::Activate { app: last, .. }
                    && is_next_created(run, i, last + 1, app))
            } else {
                before == (AppAction::Finalize { app }) && event is Done
            }
            &&& after is Done ==> ({
                ||| before is NextPayload && event is End && none_created(run, i, 0)
                ||| event is Done && (before matches AppAction::Activate { app: last, .. }
                    && none_created(run, i, last + 1))
            })
        }),
{
    lemma_awaits(run, request, i);
    lemma_awaits(run, request, i + 1);
    lemma_created(run, request, i);
    if let Some(app) = run.states[i].phase.app() {
        if run.states[i].phase is ReadingCurrent || run.states[i].phase is Finalizing {
            lemma_owner(run, request, i);
        }
    }
}

proof fn lemma_owner(run: AppRun, request: AppInstallRequest, i: int)
    requires
        is_app_run(run, request),
        0 <= i < run.actions.len(),
        run.states[i].phase is ReadingCurrent || run.states[i].phase is Finalizing,
    ensures
        generation_of(run, i, run.states[i].phase.app()->0 as int) is Some,
{
    lemma_awaits(run, request, i);
}

/// What an app has got, and what was active in it, is remembered until the end.
pub proof fn law_generations_are_remembered(run: AppRun, request: AppInstallRequest, i: int, k: int)
    requires
        is_app_run(run, request),
        run.has(i),
        0 <= k < app_count(run),
    ensures
        ({
            let before = run.actions[i];
            let event = run.events[i];
            let created = before matches AppAction::CreateGeneration { app } && app == k
                && event is Created;
            let read = before matches AppAction::ReadCurrent { app } && app == k
                && event is Current;
            &&& generation_of(run, i + 1, k) == if created {
                Some(event->Created_generation)
            } else {
                generation_of(run, i, k)
            }
            &&& run.states[i + 1].previous@[k] == if read {
                event->Current_generation
            } else {
                run.states[i].previous@[k]
            }
        }),
{
    lemma_awaits(run, request, i);
    lemma_awaits(run, request, i + 1);
}

/// Apps are rolled back only in an operation, after one could not be activated: those before
/// it that have a new generation, the last one first, each to what was active in it. The
/// failure is reported only once none is left.
pub proof fn law_earlier_apps_are_rolled_back(run: AppRun, request: AppInstallRequest, i: int)
    requires
        is_app_run(run, request),
        run.has(i),
    ensures
        ({
            let before = run.actions[i];
            let event = run.events[i];
            let after = run.actions[i + 1];
            let turn = request.flow == InstallFlow::Operation && ((before is Activate
                && event is Failed) || (before is RollBack && (event is Failed || event is Done)));
            let behind = if before is Activate {
                before->Activate_app
            } else {
                before->RollBack_app
            };
            &&& after matches AppAction::RollBack { app, previous } ==> turn && app < behind
                && generation_of(run, i, app as int) is Some && previous
                == run.states[i].previous@[app as int] && forall|k: int|
                app < k < behind ==> #[trigger] generation_of(run, i, k) is None
            &&& after matches AppAction::Fail(AppInstallError::ActivationFailed { app }) ==> turn
                && (before is Activate ==> app == behind) && forall|k: int|
                0 <= k < behind ==> #[trigger] generation_of(run, i, k) is None
            &&& turn ==> after is RollBack || (after matches AppAction::Fail(e)
                && e is ActivationFailed)
        }),
{
    lemma_awaits(run, request, i);
    lemma_awaits(run, request, i + 1);
    let state = run.states[i];
    match state.phase {
        AppPhase::Activating { app } => {
            lemma_previous_created(state.generations@, app as nat);
        },
        AppPhase::RollingBack { app, .. } => {
            lemma_previous_created(state.generations@, app as nat);
        },
        _ => {},
    }
}

/// An installation fails for a reason, and only for one: the last action failed or had an
/// outcome that is not its own; the components do not fit; the current payload cannot be
/// installed; or an app could not be activated.
#[verifier::rlimit(60)]
pub proof fn law_app_installation_fails_for_a_reason(
    run: AppRun,
    request: AppInstallRequest,
    i: int,
)
    requires
        is_app_run(run, request),
        run.has(i),
    ensures
        ({
            let before = run.actions[i];
            let event = run.events[i];
            let after = run.actions[i + 1];
            let payload = read_app_payload(run.events, i + 1)->0;
            let entered = before is NextPayload && event is Payload;
            let rolls_back = request.flow == InstallFlow::Operation && (before is Activate
                || before is RollBack);
            &&& event is Failed && !rolls_back ==> after == AppAction::Fail(
                AppInstallError::ActionFailed,
            )
            &&& before is Done || before is Fail ==> after is Fail
            &&& after matches AppAction::Fail(error) ==> match error {
                AppInstallError::ActionFailed => event is Failed && !rolls_back,
                AppInstallError::UnexpectedOutcome => !app_fits(before, event),
                AppInstallError::Bundle(_) => false,
                AppInstallError::InvalidComponents => false,
                AppInstallError::ComponentsRequired => before is Lock && event is Done,
                AppInstallError::Incompatible => before is ReportIncompatible && event is Done,
                AppInstallError::InvalidPath { payload: index } => entered && index
                    == payload.index && payload.kind is File && !is_contained(payload.kind->path@),
                AppInstallError::MissingLock { payload: index } => entered && index
                    == payload.index && !(payload.kind is Other) && forall|app: usize|
                    !#[trigger] belongs_to(run, payload, app),
                AppInstallError::MissingBlockIndex { payload: index } => (before is CreateParent
                    || before is CreateTemporary) && event is Done && index == payload.index
                    && !request.allow_missing_block_index && !payload.has_block_index,
                AppInstallError::DeltaInputs => (before is CreateParent || before is ProvideBlocks)
                    && event is Done && payload.delta_encoding is Some
                    && payload.delta_encoding->0.inputs@.len() != 1,
                AppInstallError::NoDeltaSource => before is FindCandidates && event is Candidates
                    && forall|k: int|
                    0 <= k < event->Candidates_0@.len() ==> !is_source(
                        #[trigger] event->Candidates_0@[k],
                        payload.delta_encoding->0.inputs@[0]@,
                    ),
                AppInstallError::HashMismatch => before is WriteDelta && event is Written
                    && !is_intact(event, payload),
                AppInstallError::ActivationFailed { .. } => rolls_back,
            }
        }),
{
    lemma_awaits(run, request, i);
    lemma_awaits(run, request, i + 1);
    lemma_payload(run, request, i);
    lemma_payload(run, request, i + 1);
    lemma_created(run, request, i);
    if let AppEvent::Candidates(candidates) = run.events[i] {
        if run.states[i].phase is FindingCandidates {
            assert(candidates@.len() == candidates.len());
            lemma_candidate(
                candidates@,
                run.states[i].payload->0.delta_encoding->0.inputs@[0]@,
                0,
            );
        }
    }
    if let AppEvent::Payload(payload) = run.events[i] {
        let apps = views(run.states[0].apps@);
        match payload.kind {
            AppPayloadKind::File { app, .. } => {
                lemma_position(apps, app@, 0);
            },
            AppPayloadKind::Archive { app } => {
                lemma_position(apps, app@, 0);
            },
            AppPayloadKind::Other => {},
        }
        if run.states[i].phase is Reading && (run.actions[i + 1] matches AppAction::Fail(e)
            && e is MissingLock) {
            assert forall|app: usize| !#[trigger] belongs_to(run, payload, app) by {
                if belongs_to(run, payload, app) {
                    assert(apps[app as int] == run.states[0].apps@[app as int]@);
                }
            }
        }
    }
}

/// What is known of a file that was written is remembered for its app, and stored with the
/// generation.
pub proof fn law_written_file_is_remembered(
    run: AppRun,
    request: AppInstallRequest,
    i: int,
    app: usize,
)
    requires
        is_app_run(run, request),
        run.has(i),
        ({
            let payload = read_app_payload(run.events, i)->0;
            writes_app_file(run.actions[i], payload, app) && is_intact(run.events[i], payload)
        }),
    ensures
        run.states[i + 1].states@[app as int]@.len() == run.states[i].states@[app as int]@.len()
            + 1,
        forall|k: int|
            0 <= k < app_count(run) && k != app ==> #[trigger] run.states[i + 1].states@[k]
                == run.states[i].states@[k],
{
    lemma_awaits(run, request, i);
    lemma_payload(run, request, i);
}

} // verus!

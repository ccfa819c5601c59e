//! What every run of a system installation satisfies.

use vstd::prelude::*;
use crate::digest::HashDigest;
use crate::operations::install::preflight::SystemPayloadDestination;
use crate::operations::install::system::{
    delta_source, first_step, state_matches, InstallFlow, PayloadFacts, SkipReason, SlotState,
    SystemAction, SystemEvent, SystemInstall, SystemInstallError, SystemInstallRequest, SystemPhase,
};
use crate::path::is_beneath;
use crate::run::Run;
use crate::system::boot_groups::BootGroups;
use crate::system::slots::{SlotKind, SystemSlots};

verus! {

/// A run of an installation.
pub type SystemRun = Run<SystemInstall, SystemAction, SystemEvent>;

/// Whether these are the states, actions and outcomes of an installation from its beginning.
pub open spec fn is_system_run(
    run: SystemRun,
    request: SystemInstallRequest,
    slots: SystemSlots,
    groups: BootGroups,
) -> bool {
    &&& run.wf()
    &&& request.wf(slots, groups)
    &&& slots.slots@.len() <= usize::MAX
    &&& run.states[0].wf(request, slots, groups)
    &&& run.states[0].payload is None
    &&& (run.states[0].phase, run.actions[0]) == first_step(request, slots, groups)
    &&& forall|i: int| #[trigger]
        run.has(i) ==> run.states[i].follows(
            request,
            slots,
            groups,
            run.events[i],
            run.states[i + 1],
            run.actions[i + 1],
        )
}

/// Whether an outcome is one of the action.
pub open spec fn system_fits(action: SystemAction, event: SystemEvent) -> bool {
    match action {
        SystemAction::Done(_) => false,
        SystemAction::Fail(_) => false,
        SystemAction::NextPayload => event is Payload || event is End,
        SystemAction::CheckComponents { .. } => event is Done || event is Incompatible,
        SystemAction::ReadStates => event is States,
        SystemAction::WriteDelta { .. } => event is Written,
        SystemAction::WriteBlock { .. } => event is Written,
        SystemAction::WriteFile { .. } => event is Written,
        SystemAction::WriteCustom { .. } => event is Written,
        _ => event is Done,
    }
}

/// The payload whose header was read last before the action `i`.
pub open spec fn read_payload(events: Seq<SystemEvent>, i: int) -> Option<PayloadFacts>
    decreases i,
{
    if i <= 0 {
        None
    } else {
        match events[i - 1] {
            SystemEvent::Payload(payload) => Some(payload),
            _ => read_payload(events, i - 1),
        }
    }
}

/// Whether an action writes the whole of a payload to a slot, in the way of the slot.
pub open spec fn writes_slot(
    action: SystemAction,
    slots: SystemSlots,
    slot: usize,
    payload: PayloadFacts,
) -> bool {
    match slots.slots@[slot as int].kind {
        SlotKind::Block { device } => device is Some && if payload.delta_encoding is Some {
            action matches SystemAction::WriteDelta { slot: written, .. } && written == slot
        } else {
            action == SystemAction::WriteBlock { slot }
        },
        SlotKind::File { .. } => if payload.delta_encoding is Some {
            action matches SystemAction::WriteDelta { slot: written, .. } && written == slot
        } else {
            action == SystemAction::WriteFile { slot }
        },
        SlotKind::Custom { handler } => handler@.len() > 0 && payload.delta_encoding is None
            && action == SystemAction::WriteCustom { slot },
    }
}

/// Whether the destination of a payload is the slot.
pub open spec fn goes_to(
    request: SystemInstallRequest,
    slots: SystemSlots,
    groups: BootGroups,
    payload: PayloadFacts,
    slot: usize,
) -> bool {
    &&& request.preflight(slots, groups) is Ok
    &&& payload.index < request.preflight(slots, groups)->Ok_0.len()
    &&& request.preflight(slots, groups)->Ok_0[payload.index as int]
        == SystemPayloadDestination::Slot(slot)
}

/// Whether everything was done that comes before a payload is written to a slot: the last
/// part of it is to make the config partition writable for a file on it, or else to provide
/// blocks unless the block index may be missing.
pub open spec fn is_ready(
    request: SystemInstallRequest,
    slots: SystemSlots,
    slot: usize,
    done: SystemAction,
) -> bool {
    if is_on_config_partition(request, slots, slot) {
        done == SystemAction::AcquireWriteGuard { slot }
    } else if request.allow_missing_block_index {
        done == SystemAction::Erase { slot }
    } else {
        done is ProvideBlocks
    }
}

/// Whether a slot is the first one whose stored data has one of the digests.
pub open spec fn is_first_match(
    states: Seq<Option<SlotState>>,
    hashes: Seq<HashDigest>,
    slot: usize,
) -> bool {
    &&& slot < states.len()
    &&& has_digest(states[slot as int], hashes)
    &&& forall|k: int| 0 <= k < slot ==> !has_digest(#[trigger] states[k], hashes)
}

/// Whether one of the digests is stored of a slot.
pub open spec fn has_digest(state: Option<SlotState>, hashes: Seq<HashDigest>) -> bool {
    state is Some && exists|a: int, b: int|
        0 <= a < hashes.len() && 0 <= b < state->0.hashes@.len() && #[trigger] hashes[a]@
            == #[trigger] state->0.hashes@[b]@
}

/// Whether the data of a slot can be read back.
pub open spec fn is_readable(slots: SystemSlots, slot: usize) -> bool {
    match slots.slots@[slot as int].kind {
        SlotKind::Block { device } => device is Some,
        SlotKind::File { .. } => true,
        SlotKind::Custom { .. } => false,
    }
}

/// Whether a slot is a file on the config partition.
pub open spec fn is_on_config_partition(
    request: SystemInstallRequest,
    slots: SystemSlots,
    slot: usize,
) -> bool {
    match slots.slots@[slot as int].kind {
        SlotKind::File { path } => request.config_path is Some && is_beneath(
            path@,
            request.config_path->0@,
        ),
        _ => false,
    }
}

/// The action whose outcome a phase waits for.
spec fn awaits(phase: SystemPhase, action: SystemAction) -> bool {
    match phase {
        SystemPhase::ReportingSkip => action is ReportSkip,
        SystemPhase::Checking => action is CheckComponents,
        SystemPhase::ReportingIncompatible => action is ReportIncompatible,
        SystemPhase::LoadingHooks => action is LoadHooks,
        SystemPhase::PreUpdating => action is RunPreUpdate,
        SystemPhase::ClearingOverlay => action is ClearOverlay,
        SystemPhase::PreInstalling => action is PreInstall,
        SystemPhase::LoadingProgressHooks => action is LoadProgressHooks,
        SystemPhase::Reading => action is NextPayload,
        SystemPhase::Erasing { slot } => action == SystemAction::Erase { slot },
        SystemPhase::ProvidingBlocks { .. } => action is ProvideBlocks,
        SystemPhase::AcquiringGuard { slot } => action == SystemAction::AcquireWriteGuard { slot },
        SystemPhase::ReadingStates { .. } => action is ReadStates,
        SystemPhase::Writing { slot, delta } => if delta {
            action matches SystemAction::WriteDelta { slot: s, .. } && s == slot
        } else {
            ||| action == SystemAction::WriteBlock { slot }
            ||| action == SystemAction::WriteFile { slot }
            ||| action == SystemAction::WriteCustom { slot }
        },
        SystemPhase::Saving { slot } => action matches SystemAction::Save { slot: s, .. } && s == slot,
        SystemPhase::Executing => action is Execute,
        SystemPhase::ReportingWritten => action is ReportWritten,
        SystemPhase::PostInstalling => action is PostInstall,
        SystemPhase::PostUpdating => action is RunPostUpdate,
        SystemPhase::Finished => action is Done || action is Fail,
    }
}

/// What holds where a phase is reached.
spec fn reached(request: SystemInstallRequest, slots: SystemSlots, state: SystemInstall) -> bool {
    match state.phase {
        SystemPhase::ReportingSkip => request.flow == InstallFlow::Operation,
        SystemPhase::ClearingOverlay => !request.keep_overlay && request.target is Some,
        SystemPhase::PreInstalling => !request.is_incremental && request.target is Some,
        SystemPhase::PostInstalling => !request.is_incremental && request.target is Some,
        SystemPhase::ProvidingBlocks { .. } => !request.allow_missing_block_index
            && state.payload->0.has_block_index,
        SystemPhase::AcquiringGuard { slot } => is_on_config_partition(request, slots, slot),
        _ => true,
    }
}

proof fn lemma_awaits(
    run: SystemRun,
    request: SystemInstallRequest,
    slots: SystemSlots,
    groups: BootGroups,
    i: int,
)
    requires
        is_system_run(run, request, slots, groups),
        0 <= i < run.actions.len(),
    ensures
        awaits(run.states[i].phase, run.actions[i]),
        run.states[i].wf(request, slots, groups),
        run.states[i].phase matches SystemPhase::Writing { slot, .. } ==> writes_slot(
            run.actions[i],
            slots,
            slot,
            run.states[i].payload->0,
        ),
        reached(request, slots, run.states[i]),
{
    if i > 0 {
        assert(run.has(i - 1));
        lemma_wf(run, request, slots, groups, i - 1);
    }
}

proof fn lemma_wf(
    run: SystemRun,
    request: SystemInstallRequest,
    slots: SystemSlots,
    groups: BootGroups,
    i: int,
)
    requires
        is_system_run(run, request, slots, groups),
        0 <= i < run.actions.len(),
    ensures
        run.states[i].wf(request, slots, groups),
{
    if i > 0 {
        assert(run.has(i - 1));
    }
}

proof fn lemma_payload(
    run: SystemRun,
    request: SystemInstallRequest,
    slots: SystemSlots,
    groups: BootGroups,
    i: int,
)
    requires
        is_system_run(run, request, slots, groups),
        0 <= i < run.actions.len(),
    ensures
        run.states[i].phase is Finished || run.states[i].payload == read_payload(run.events, i),
    decreases i,
{
    if i > 0 {
        assert(run.has(i - 1));
        lemma_payload(run, request, slots, groups, i - 1);
    }
}

proof fn lemma_slot(
    run: SystemRun,
    request: SystemInstallRequest,
    slots: SystemSlots,
    groups: BootGroups,
    i: int,
)
    requires
        is_system_run(run, request, slots, groups),
        0 <= i < run.actions.len(),
    ensures
        run.states[i].phase.slot() matches Some(slot) ==> goes_to(
            request,
            slots,
            groups,
            run.states[i].payload->0,
            slot,
        ),
    decreases i,
{
    lemma_wf(run, request, slots, groups, i);
    if i > 0 {
        assert(run.has(i - 1));
        lemma_wf(run, request, slots, groups, i - 1);
        lemma_slot(run, request, slots, groups, i - 1);
    }
}

proof fn lemma_has_digest(state: Option<SlotState>, hashes: Seq<HashDigest>)
    ensures
        has_digest(state, hashes) == state_matches(state, hashes),
{
}

proof fn lemma_delta_source(states: Seq<Option<SlotState>>, hashes: Seq<HashDigest>, from: nat)
    requires
        states.len() <= usize::MAX,
    ensures
        match delta_source(states, hashes, from) {
            Some(s) => from <= s < states.len() && has_digest(states[s as int], hashes) && forall|
                k: int,
            |
                from <= k < s ==> !has_digest(#[trigger] states[k], hashes),
            None => forall|k: int|
                from <= k < states.len() ==> !has_digest(#[trigger] states[k], hashes),
        },
    decreases states.len() - from,
{
    if from < states.len() {
        lemma_has_digest(states[from as int], hashes);
        if !state_matches(states[from as int], hashes) {
            lemma_delta_source(states, hashes, from + 1);
        }
    }
}

/// An installation begins with the check of the components of the bundle. The check is left
/// out only where that is asked for or where the bundle has none; a typed operation reports
/// it then, and refuses a bundle that has to have components.
pub proof fn law_components_are_checked_first(
    run: SystemRun,
    request: SystemInstallRequest,
    slots: SystemSlots,
    groups: BootGroups,
)
    requires
        is_system_run(run, request, slots, groups),
    ensures
        ({
            let first = run.actions[0];
            let checked = !request.skip_compatibility_check && request.has_components;
            let operation = request.flow == InstallFlow::Operation;
            &&& checked <==> first == (SystemAction::CheckComponents {
                incremental: request.is_incremental,
            })
            &&& !checked && operation && request.skip_compatibility_check ==> first
                == SystemAction::ReportSkip(SkipReason::Explicit)
            &&& !checked && operation && !request.skip_compatibility_check
                && request.requires_components ==> first == SystemAction::Fail(
                SystemInstallError::ComponentsRequired,
            )
            &&& !checked && operation && !request.skip_compatibility_check
                && !request.requires_components ==> first == SystemAction::ReportSkip(
                SkipReason::NoMetadata,
            )
            &&& !checked && !operation ==> match request.preflight(slots, groups) {
                Ok(_) => first is LoadHooks,
                Err(e) => first == SystemAction::Fail(SystemInstallError::Preflight(e)),
            }
        }),
{
}

/// What prepares an installation comes in its order, and each part only once the one before
/// it succeeded: the hooks are loaded after the check and run after every payload has its
/// destination; the overlay of the target group is cleared unless it is to be kept; the boot
/// flow is prepared for a full update, and only for one; then the payloads are read.
pub proof fn law_installation_is_prepared_in_order(
    run: SystemRun,
    request: SystemInstallRequest,
    slots: SystemSlots,
    groups: BootGroups,
    i: int,
)
    requires
        is_system_run(run, request, slots, groups),
        run.has(i),
    ensures
        ({
            let before = run.actions[i];
            let event = run.events[i];
            let after = run.actions[i + 1];
            let cleared = !request.keep_overlay && request.target is Some;
            &&& !(after is CheckComponents) && !(after is ReportSkip)
            &&& after is ReportIncompatible ==> before is CheckComponents && event is Incompatible
            &&& after is LoadHooks ==> event is Done && (before is CheckComponents
                || before is ReportSkip)
            &&& after is RunPreUpdate ==> event is Done && before is LoadHooks && request.preflight(
                slots,
                groups,
            ) is Ok
            &&& after matches SystemAction::ClearOverlay { group } ==> event is Done
                && before is RunPreUpdate && cleared && request.target == Some(group)
            &&& after matches SystemAction::PreInstall { group } ==> event is Done
                && !request.is_incremental && request.target == Some(group) && if cleared {
                before is ClearOverlay
            } else {
                before is RunPreUpdate
            }
            &&& after is LoadProgressHooks ==> event is Done && if !request.is_incremental {
                before is PreInstall
            } else if cleared {
                before is ClearOverlay
            } else {
                before is RunPreUpdate
            }
            &&& after is NextPayload ==> event is Done && (before is LoadProgressHooks
                || before is Save || before is Execute)
        }),
{
    lemma_awaits(run, request, slots, groups, i);
    lemma_awaits(run, request, slots, groups, i + 1);
}

/// A payload is installed in its order. It is begun only once its header is read, and goes
/// to its destination; blocks are provided unless the block index may be missing; the config
/// partition is made writable for a file on it; a payload is written in the way of its slot,
/// and a difference from the first slot whose stored data is its input; and what is known of
/// the slot is stored only after its data was written, with the digest where the slot is
/// immutable.
#[verifier::rlimit(60)]
pub proof fn law_payload_is_installed_in_order(
    run: SystemRun,
    request: SystemInstallRequest,
    slots: SystemSlots,
    groups: BootGroups,
    i: int,
)
    requires
        is_system_run(run, request, slots, groups),
        run.has(i),
    ensures
        ({
            let before = run.actions[i];
            let event = run.events[i];
            let after = run.actions[i + 1];
            let all = request.preflight(slots, groups)->Ok_0;
            let payload = read_payload(run.events, i + 1)->0;
            &&& after.target_slot() matches Some(slot) ==> goes_to(
                request,
                slots,
                groups,
                payload,
                slot,
            )
            &&& after is Erase ==> before is NextPayload && event is Payload
            &&& after is Execute ==> before is NextPayload && event is Payload && payload.index
                < all.len() && all[payload.index as int] is Execute && payload.handler is Some
                && payload.handler->0@.len() > 0
            &&& after is ProvideBlocks ==> before is Erase && event is Done
                && !request.allow_missing_block_index && payload.has_block_index
            &&& after matches SystemAction::AcquireWriteGuard { slot } ==> event is Done && (if request.allow_missing_block_index {
                before is Erase
            } else {
                before is ProvideBlocks
            }) && is_on_config_partition(request, slots, slot)
            &&& after is ReadStates ==> event is Done && payload.delta_encoding is Some
                && payload.delta_encoding->0.inputs@.len() == 1 && is_ready(
                request,
                slots,
                all[payload.index as int]->Slot_0,
                before,
            )
            &&& after matches SystemAction::WriteDelta { source, slot } ==> {
                let hashes = payload.delta_encoding->0.inputs@[0]@;
                &&& before is ReadStates
                &&& event is States && is_first_match(event->States_0@, hashes, source)
                &&& source < slots.slots@.len()
                &&& is_readable(slots, source)
                &&& writes_slot(after, slots, slot, payload)
            }
            &&& after matches SystemAction::WriteBlock { slot } ==> event is Done && is_ready(
                request,
                slots,
                slot,
                before,
            ) && writes_slot(after, slots, slot, payload)
            &&& after matches SystemAction::WriteFile { slot } ==> event is Done && is_ready(
                request,
                slots,
                slot,
                before,
            ) && writes_slot(after, slots, slot, payload)
            &&& after matches SystemAction::WriteCustom { slot } ==> event is Done && is_ready(
                request,
                slots,
                slot,
                before,
            ) && writes_slot(after, slots, slot, payload)
            &&& after matches SystemAction::Save { slot, with_digest } ==> writes_slot(
                before,
                slots,
                slot,
                payload,
            ) && event is Written && with_digest == slots.slots@[slot as int].immutable && (
            before is WriteDelta ==> event->digest@ == payload.delta_encoding->0.original_hash@)
                && run.states[i + 1].decoded == Some((event->digest, event->size))
        }),
{
    lemma_slot(run, request, slots, groups, i);
    lemma_slot(run, request, slots, groups, i + 1);
    lemma_awaits(run, request, slots, groups, i);
    lemma_awaits(run, request, slots, groups, i + 1);
    lemma_payload(run, request, slots, groups, i);
    lemma_payload(run, request, slots, groups, i + 1);
    if let SystemEvent::States(states) = run.events[i] {
        if run.states[i].phase is ReadingStates {
            assert(states@.len() == states.len());
            lemma_delta_source(
                states@,
                run.states[i].payload->0.delta_encoding->0.inputs@[0]@,
                0,
            );
        }
    }
}

/// An installation is finished in its order: once there are no more payloads, the boot flow
/// is told of the group that a full update was installed to, then the hooks are run, and a
/// full update is booted unless told otherwise.
pub proof fn law_installation_is_finished_in_order(
    run: SystemRun,
    request: SystemInstallRequest,
    slots: SystemSlots,
    groups: BootGroups,
    i: int,
)
    requires
        is_system_run(run, request, slots, groups),
        run.has(i),
    ensures
        ({
            let before = run.actions[i];
            let event = run.events[i];
            let after = run.actions[i + 1];
            &&& after is ReportWritten ==> before is NextPayload && event is End
            &&& after matches SystemAction::PostInstall { group } ==> before is ReportWritten
                && event is Done && !request.is_incremental && request.target == Some(group)
            &&& after is RunPostUpdate ==> event is Done && if request.is_incremental {
                before is ReportWritten
            } else {
                before is PostInstall
            }
            &&& after matches SystemAction::Done(mode) ==> before is RunPostUpdate && event is Done
                && if request.is_incremental {
                mode is No
            } else {
                mode is Yes
            }
        }),
{
    lemma_awaits(run, request, slots, groups, i);
    lemma_awaits(run, request, slots, groups, i + 1);
}

/// An installation fails for a reason, and only for one: the last action failed or had an
/// outcome that is not its own; the components do not fit; the payloads have no proper
/// destinations; or the current payload cannot be written to its slot. A failed action ends
/// the installation, whatever it was, and nothing follows the end.
#[verifier::rlimit(60)]
pub proof fn law_installation_fails_for_a_reason(
    run: SystemRun,
    request: SystemInstallRequest,
    slots: SystemSlots,
    groups: BootGroups,
    i: int,
)
    requires
        is_system_run(run, request, slots, groups),
        run.has(i),
    ensures
        ({
            let before = run.actions[i];
            let event = run.events[i];
            let after = run.actions[i + 1];
            let all = request.preflight(slots, groups)->Ok_0;
            let payload = read_payload(run.events, i + 1)->0;
            let slot = all[payload.index as int]->Slot_0;
            let kind = slots.slots@[slot as int].kind;
            &&& event is Failed ==> after == SystemAction::Fail(SystemInstallError::ActionFailed)
            &&& before is Done || before is Fail ==> after is Fail
            &&& after matches SystemAction::Fail(error) ==> match error {
                SystemInstallError::ActionFailed => event is Failed,
                SystemInstallError::UnexpectedOutcome => !system_fits(before, event) || (
                before is ReadStates && event is States && exists|source: usize|
                    source >= slots.slots@.len() && #[trigger] is_first_match(
                        event->States_0@,
                        payload.delta_encoding->0.inputs@[0]@,
                        source,
                    )),
                SystemInstallError::ComponentsRequired => false,
                SystemInstallError::Incompatible => before is ReportIncompatible && event is Done,
                SystemInstallError::Preflight(e) => event is Done && request.preflight(
                    slots,
                    groups,
                ) == Err::<Seq<SystemPayloadDestination>, _>(e) && if request.flow
                    == InstallFlow::Operation {
                    before is LoadHooks
                } else {
                    before is CheckComponents
                },
                SystemInstallError::MissingTarget => false,
                SystemInstallError::MissingFromIndex { payload: index } => before is NextPayload
                    && event is Payload && index == payload.index && index >= all.len(),
                SystemInstallError::MissingHandler => before is NextPayload && event is Payload
                    && all[payload.index as int] is Execute && payload.handler is None,
                SystemInstallError::EmptyHandler => ({
                    ||| before is NextPayload && event is Payload && all[payload.index as int] is Execute
                        && payload.handler is Some && payload.handler->0@.len() == 0
                    ||| is_ready(request, slots, slot, before) && event is Done && kind is Custom
                        && kind->handler@.len() == 0
                }),
                SystemInstallError::MissingBlockIndex { payload: index } => before is Erase
                    && event is Done && !request.allow_missing_block_index
                    && !payload.has_block_index && index == payload.index,
                SystemInstallError::DeltaInputs => is_ready(request, slots, slot, before)
                    && event is Done && payload.delta_encoding is Some
                    && payload.delta_encoding->0.inputs@.len() != 1,
                SystemInstallError::NoDeltaSource => before is ReadStates && event is States
                    && forall|k: int|
                    0 <= k < event->States_0@.len() ==> !has_digest(
                        #[trigger] event->States_0@[k],
                        payload.delta_encoding->0.inputs@[0]@,
                    ),
                SystemInstallError::CustomDeltaSource => before is ReadStates && event is States
                    && exists|source: usize| #[trigger]
                    is_first_match(
                        event->States_0@,
                        payload.delta_encoding->0.inputs@[0]@,
                        source,
                    ) && slots.slots@[source as int].kind is Custom,
                SystemInstallError::CustomDeltaTarget => before is ReadStates && event is States
                    && kind is Custom,
                SystemInstallError::AbsentDevice { slot: absent } => slots.slots@[absent as int].kind
                    == (SlotKind::Block { device: None }),
                SystemInstallError::HashMismatch => before is WriteDelta && event is Written
                    && event->digest@ != payload.delta_encoding->0.original_hash@,
            }
        }),
{
    lemma_slot(run, request, slots, groups, i);
    lemma_awaits(run, request, slots, groups, i);
    lemma_awaits(run, request, slots, groups, i + 1);
    lemma_payload(run, request, slots, groups, i);
    lemma_payload(run, request, slots, groups, i + 1);
    if let SystemEvent::States(states) = run.events[i] {
        if run.states[i].phase is ReadingStates {
            assert(states@.len() == states.len());
            let hashes = run.states[i].payload->0.delta_encoding->0.inputs@[0]@;
            lemma_delta_source(states@, hashes, 0);
            if let Some(source) = delta_source(states@, hashes, 0) {
                assert(is_first_match(states@, hashes, source));
            }
        }
    }
}

proof fn lemma_within_payload(
    run: SystemRun,
    request: SystemInstallRequest,
    slots: SystemSlots,
    groups: BootGroups,
    i: int,
    payload: PayloadFacts,
    slot: usize,
    j: int,
)
    requires
        is_system_run(run, request, slots, groups),
        0 <= i < j < run.actions.len(),
        run.actions[i] is NextPayload,
        run.events[i] == SystemEvent::Payload(payload),
        goes_to(request, slots, groups, payload, slot),
        forall|k: int| i < k < j ==> !(#[trigger] run.actions[k] is NextPayload),
    ensures
        ({
            ||| run.states[j].phase.slot() == Some(slot) && run.states[j].payload == Some(payload)
            ||| run.actions[j] is NextPayload && run.states[j - 1].phase == (SystemPhase::Saving {
                slot,
            }) && run.events[j - 1] is Done && run.states[j - 1].payload == Some(payload)
            ||| run.actions[j] is Fail && run.states[j].phase is Finished
        }),
    decreases j - i,
{
    lemma_awaits(run, request, slots, groups, j - 1);
    lemma_awaits(run, request, slots, groups, j);
    assert(run.has(j - 1));
    if i < j - 1 {
        assert(!(run.actions[j - 1] is NextPayload));
        lemma_within_payload(run, request, slots, groups, i, payload, slot, j - 1);
    }
}

/// A payload that goes to a slot is written to it, in the way of the slot, and what is known
/// of the slot is stored, before the next payload is read. Until then nothing is reported as
/// written and the boot flow is told nothing.
pub proof fn law_payload_is_written_and_stored(
    run: SystemRun,
    request: SystemInstallRequest,
    slots: SystemSlots,
    groups: BootGroups,
    i: int,
    payload: PayloadFacts,
    slot: usize,
    j: int,
)
    requires
        is_system_run(run, request, slots, groups),
        0 <= i < j < run.actions.len(),
        run.actions[i] is NextPayload,
        run.events[i] == SystemEvent::Payload(payload),
        goes_to(request, slots, groups, payload, slot),
        forall|k: int| i < k < j ==> !(#[trigger] run.actions[k] is NextPayload),
    ensures
        !(run.actions[j] is ReportWritten) && !(run.actions[j] is PostInstall)
            && !(run.actions[j] is RunPostUpdate) && !(run.actions[j] is Done),
        run.actions[j] is NextPayload ==> {
            &&& i < j - 2
            &&& run.actions[j - 1] == SystemAction::Save {
                slot,
                with_digest: slots.slots@[slot as int].immutable,
            }
            &&& run.events[j - 1] is Done
            &&& writes_slot(run.actions[j - 2], slots, slot, payload)
            &&& run.events[j - 2] is Written
        },
{
    lemma_within_payload(run, request, slots, groups, i, payload, slot, j);
    lemma_awaits(run, request, slots, groups, i);
    lemma_awaits(run, request, slots, groups, j);
    if run.actions[j] is NextPayload {
        lemma_awaits(run, request, slots, groups, j - 1);
        assert(run.has(i));
        assert(j - 1 > i);
        assert(run.has(j - 2));
        lemma_awaits(run, request, slots, groups, j - 2);
        lemma_payload(run, request, slots, groups, j - 1);
        assert(j - 2 > i) by {
            if j - 2 == i {
                assert(run.states[i + 1].phase is Erasing || run.states[i + 1].phase is Finished);
            }
        }
        lemma_within_payload(run, request, slots, groups, i, payload, slot, j - 1);
    }
}

} // verus!

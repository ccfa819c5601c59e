//! System bundle installation.
//!
//! The installation is a machine: it names one action at a time and takes its
//! outcome. Every payload is given a destination before the first action that
//! changes the system.

use vstd::prelude::*;
use crate::digest::HashDigest;
use crate::operations::install::preflight::{
    is_writable_slot, law_preflight_protects_the_running_system, PayloadDelivery, preflight,
    preflight_system_deliveries, PreflightError, SystemPayloadDestination,
};
use crate::path::{is_beneath, starts_with};
use crate::system::boot_groups::{BootGroup, BootGroups};
use crate::system::slots::{Slot, SlotKind, SystemSlots};

verus! {

/// Post-installation behavior for a system update.
#[derive(Debug, Clone, Copy, PartialEq, Eq, Structural)]
pub enum SystemRebootMode {
    /// Select the installed system and reboot.
    Yes,
    /// Leave boot selection unchanged.
    No,
    /// Select the installed system without rebooting.
    SetNext,
    /// Defer boot selection until the next boot.
    Deferred,
}

/// What an installation is started by.
#[derive(Debug, Clone, Copy, PartialEq, Eq, Structural)]
pub enum InstallFlow {
    /// A typed operation: the component policy holds and skipped checks are
    /// reported.
    Operation,
    /// The update command: a bundle without component metadata is not checked, and
    /// payloads are given their destinations before hooks are loaded.
    Command,
}

/// What is to be installed, and how.
#[derive(Debug)]
pub struct SystemInstallRequest {
    pub flow: InstallFlow,
    pub is_incremental: bool,
    /// Whether the bundle declares components.
    pub has_components: bool,
    /// Whether the policy requires that it does.
    pub requires_components: bool,
    pub skip_compatibility_check: bool,
    pub allow_missing_block_index: bool,
    pub keep_overlay: bool,
    /// Boot group to install to.
    pub target: Option<usize>,
    pub deliveries: Vec<PayloadDelivery>,
    /// Where the config partition is mounted.
    pub config_path: Option<String>,
}

impl SystemInstallRequest {
    /// The boot group to install to.
    pub open spec fn group(self, groups: BootGroups) -> Option<BootGroup> {
        match self.target {
            Some(i) => Some(groups.groups@[i as int]),
            None => None,
        }
    }

    /// Whether the target is one of the groups, and the group has slots that exist.
    pub open spec fn wf(self, slots: SystemSlots, groups: BootGroups) -> bool {
        self.target matches Some(i) ==> i < groups.groups@.len() && groups.groups@[i as int].wf(
            slots.slots@.len(),
        )
    }

    /// The destinations of the payloads, or why the bundle cannot be installed.
    pub open spec fn preflight(self, slots: SystemSlots, groups: BootGroups) -> Result<
        Seq<SystemPayloadDestination>,
        PreflightError,
    > {
        preflight(self.is_incremental, self.deliveries@, slots.slots@, self.group(groups))
    }
}

/// How a payload is encoded as a difference.
#[derive(Debug, Clone)]
pub struct DeltaEncoding {
    /// For each input, the digests that identify it.
    pub inputs: Vec<Vec<HashDigest>>,
    /// Digest of the decoded data.
    pub original_hash: HashDigest,
}

/// What is known of a payload once its header is read.
#[derive(Debug)]
pub struct PayloadFacts {
    /// Position in the bundle.
    pub index: usize,
    pub has_block_index: bool,
    pub delta_encoding: Option<DeltaEncoding>,
    /// Command of an execute payload.
    pub handler: Option<Vec<String>>,
}

/// What is stored of the data of a slot.
#[derive(Debug)]
pub struct SlotState {
    /// Digests, at most one for each algorithm.
    pub hashes: Vec<HashDigest>,
    pub size: Option<u64>,
}

/// Why an installation failed.
#[derive(Debug, Clone, Copy, PartialEq, Eq, Structural)]
pub enum SystemInstallError {
    /// The bundle does not declare required component metadata.
    ComponentsRequired,
    /// The component compatibility check failed.
    Incompatible,
    /// The payloads have no proper destinations.
    Preflight(PreflightError),
    /// A full update requires a target boot group.
    MissingTarget,
    /// The payload is missing from the bundle index.
    MissingFromIndex { payload: usize },
    /// The payload does not have a block index.
    MissingBlockIndex { payload: usize },
    /// The number of delta encoding inputs is not supported.
    DeltaInputs,
    /// No slot is a suitable delta source.
    NoDeltaSource,
    /// The source slot must not be a custom slot.
    CustomDeltaSource,
    /// Custom slots do not support delta updates.
    CustomDeltaTarget,
    /// The block device of a slot is absent.
    AbsentDevice { slot: usize },
    /// A custom update handler cannot be an empty sequence.
    EmptyHandler,
    /// The payload has no handler to execute.
    MissingHandler,
    /// The decoded data does not match its digest.
    HashMismatch,
    /// The last action failed.
    ActionFailed,
    /// The outcome is not one of the last action.
    UnexpectedOutcome,
}

/// Why a compatibility check is skipped.
#[derive(Debug, Clone, Copy, PartialEq, Eq, Structural)]
pub enum SkipReason {
    /// Explicit --skip-compatibility-check option.
    Explicit,
    /// Bundle component metadata is absent and not required by policy.
    NoMetadata,
}

/// What the installation wants done next.
#[derive(Debug, Clone, Copy, PartialEq, Eq, Structural)]
pub enum SystemAction {
    /// Report that the compatibility check is skipped.
    ReportSkip(SkipReason),
    /// Check the installed components against those of the bundle.
    CheckComponents { incremental: bool },
    /// Report the failed compatibility check.
    ReportIncompatible,
    /// Load the `update-install` hooks.
    LoadHooks,
    /// Run the `pre-update` hooks.
    RunPreUpdate,
    /// Clear the overlay of the target group.
    ClearOverlay { group: usize },
    /// Prepare the boot flow for the installation.
    PreInstall { group: usize },
    /// Load the hooks that are told about progress.
    LoadProgressHooks,
    /// Read the header of the next payload.
    NextPayload,
    /// Erase what is stored about the data of a slot.
    Erase { slot: usize },
    /// Collect the blocks that are already on the device.
    ProvideBlocks,
    /// Make the config partition writable until the payload is written.
    AcquireWriteGuard { slot: usize },
    /// Read what is stored about the data of all slots.
    ReadStates,
    /// Write a payload that is a difference to the data of `source`.
    WriteDelta { source: usize, slot: usize },
    /// Write a payload to a block device.
    WriteBlock { slot: usize },
    /// Write a payload to a file.
    WriteFile { slot: usize },
    /// Write a payload to the command of a slot.
    WriteCustom { slot: usize },
    /// Store what is known about the data of a slot.
    Save { slot: usize, with_digest: bool },
    /// Write a payload to its own command.
    Execute,
    /// Report that everything is written.
    ReportWritten,
    /// Tell the boot flow that the group is installed.
    PostInstall { group: usize },
    /// Run the `post-update` hooks.
    RunPostUpdate,
    /// The installation is over; this is what to do next unless told otherwise.
    Done(SystemRebootMode),
    /// The installation failed.
    Fail(SystemInstallError),
}

impl SystemAction {
    /// Whether the action changes the system, or runs hooks that may.
    pub open spec fn changes_system(self) -> bool {
        match self {
            SystemAction::RunPreUpdate => true,
            SystemAction::ClearOverlay { .. } => true,
            SystemAction::PreInstall { .. } => true,
            SystemAction::Erase { .. } => true,
            SystemAction::AcquireWriteGuard { .. } => true,
            SystemAction::WriteDelta { .. } => true,
            SystemAction::WriteBlock { .. } => true,
            SystemAction::WriteFile { .. } => true,
            SystemAction::WriteCustom { .. } => true,
            SystemAction::Save { .. } => true,
            SystemAction::Execute => true,
            SystemAction::PostInstall { .. } => true,
            SystemAction::RunPostUpdate => true,
            _ => false,
        }
    }

    /// The slot that the action writes to, or whose stored state it changes.
    pub open spec fn target_slot(self) -> Option<usize> {
        match self {
            SystemAction::Erase { slot } => Some(slot),
            SystemAction::AcquireWriteGuard { slot } => Some(slot),
            SystemAction::WriteDelta { slot, .. } => Some(slot),
            SystemAction::WriteBlock { slot } => Some(slot),
            SystemAction::WriteFile { slot } => Some(slot),
            SystemAction::WriteCustom { slot } => Some(slot),
            SystemAction::Save { slot, .. } => Some(slot),
            _ => None,
        }
    }
}

/// Outcome of an action.
#[derive(Debug)]
pub enum SystemEvent {
    /// The action succeeded.
    Done,
    /// The action failed.
    Failed,
    /// The components of the bundle are not compatible.
    Incompatible,
    /// There is another payload.
    Payload(PayloadFacts),
    /// There are no more payloads.
    End,
    /// What is stored of each slot, where anything is.
    States(Vec<Option<SlotState>>),
    /// The payload was written; digest and size of the data.
    Written { digest: HashDigest, size: u64 },
}

/// Progress of an installation.
#[derive(Debug, Clone, Copy, PartialEq, Eq, Structural)]
pub enum SystemPhase {
    ReportingSkip,
    Checking,
    ReportingIncompatible,
    LoadingHooks,
    PreUpdating,
    ClearingOverlay,
    PreInstalling,
    LoadingProgressHooks,
    Reading,
    Erasing { slot: usize },
    ProvidingBlocks { slot: usize },
    AcquiringGuard { slot: usize },
    ReadingStates { slot: usize },
    Writing { slot: usize, delta: bool },
    Saving { slot: usize },
    Executing,
    ReportingWritten,
    PostInstalling,
    PostUpdating,
    Finished,
}

impl SystemPhase {
    /// Whether every payload has been given its destination.
    pub open spec fn is_prepared(self, flow: InstallFlow) -> bool {
        match self {
            SystemPhase::ReportingSkip => false,
            SystemPhase::Checking => false,
            SystemPhase::ReportingIncompatible => false,
            SystemPhase::LoadingHooks => flow == InstallFlow::Command,
            SystemPhase::Finished => false,
            _ => true,
        }
    }

    /// The slot that the current payload is written to.
    pub open spec fn slot(self) -> Option<usize> {
        match self {
            SystemPhase::Erasing { slot } => Some(slot),
            SystemPhase::ProvidingBlocks { slot } => Some(slot),
            SystemPhase::AcquiringGuard { slot } => Some(slot),
            SystemPhase::ReadingStates { slot } => Some(slot),
            SystemPhase::Writing { slot, .. } => Some(slot),
            SystemPhase::Saving { slot } => Some(slot),
            _ => None,
        }
    }

    /// Whether the payload is still to be decided on or written as a difference.
    pub open spec fn needs_delta(self) -> bool {
        match self {
            SystemPhase::ReadingStates { .. } => true,
            SystemPhase::Writing { delta, .. } => delta,
            _ => false,
        }
    }
}

/// Whether one of the digests of an input is stored for a slot.
pub open spec fn state_matches(state: Option<SlotState>, hashes: Seq<HashDigest>) -> bool {
    state is Some && exists|i: int, j: int|
        0 <= i < hashes.len() && 0 <= j < state->0.hashes@.len() && (#[trigger] hashes[i])@ == (
        #[trigger] state->0.hashes@[j])@
}

/// The first slot from `from` on whose stored data is the input.
pub open spec fn delta_source(
    states: Seq<Option<SlotState>>,
    hashes: Seq<HashDigest>,
    from: nat,
) -> Option<usize>
    decreases states.len() - from,
{
    if from >= states.len() {
        None
    } else if state_matches(states[from as int], hashes) {
        Some(from as usize)
    } else {
        delta_source(states, hashes, from + 1)
    }
}

fn matches_state(state: &Option<SlotState>, hashes: &Vec<HashDigest>) -> (r: bool)
    ensures
        r == state_matches(*state, hashes@),
{
    let stored = match state {
        Some(state) => &state.hashes,
        None => return false,
    };
    let mut i: usize = 0;
    while i < hashes.len()
        invariant
            i <= hashes@.len(),
            *state is Some,
            stored == &(*state)->0.hashes,
            forall|a: int, b: int|
                0 <= a < i && 0 <= b < stored@.len() ==> (#[trigger] hashes@[a])@ != (
                #[trigger] stored@[b])@,
        decreases hashes@.len() - i,
    {
        let mut j: usize = 0;
        while j < stored.len()
            invariant
                i < hashes@.len(),
                j <= stored@.len(),
                *state is Some,
                stored == &(*state)->0.hashes,
                forall|b: int| 0 <= b < j ==> hashes@[i as int]@ != (#[trigger] stored@[b])@,
            decreases stored@.len() - j,
        {
            if hashes[i].equals(&stored[j]) {
                assert(hashes@[i as int]@ == stored@[j as int]@);
                return true;
            }
            j = j + 1;
        }
        i = i + 1;
    }
    false
}

/// Finds the slot whose stored data is the input of a difference.
pub fn find_delta_source(states: &Vec<Option<SlotState>>, hashes: &Vec<HashDigest>) -> (r: Option<
    usize,
>)
    ensures
        r == delta_source(states@, hashes@, 0),
        r matches Some(i) ==> i < states@.len(),
{
    let mut i: usize = 0;
    while i < states.len()
        invariant
            i <= states@.len(),
            delta_source(states@, hashes@, 0) == delta_source(states@, hashes@, i as nat),
        decreases states@.len() - i,
    {
        if matches_state(&states[i], hashes) {
            return Some(i);
        }
        i = i + 1;
    }
    None
}

/// The slots whose data can provide blocks: those with a device or a file.
pub open spec fn block_sources(slots: Seq<Slot>, n: nat) -> Seq<usize>
    decreases n,
{
    if n == 0 {
        Seq::empty()
    } else {
        let before = block_sources(slots, (n - 1) as nat);
        match slots[n - 1].kind {
            SlotKind::Block { device: None } => before,
            SlotKind::Custom { .. } => before,
            _ => before.push((n - 1) as usize),
        }
    }
}

/// The slots whose data can provide blocks.
pub fn list_block_sources(slots: &SystemSlots) -> (r: Vec<usize>)
    ensures
        r@ == block_sources(slots.slots@, slots.slots@.len()),
{
    let mut r: Vec<usize> = Vec::new();
    let mut i: usize = 0;
    while i < slots.slots.len()
        invariant
            i <= slots.slots@.len(),
            r@ == block_sources(slots.slots@, i as nat),
        decreases slots.slots@.len() - i,
    {
        match &slots.slots[i].kind {
            SlotKind::Block { device } => {
                if device.is_some() {
                    r.push(i);
                }
            },
            SlotKind::File { .. } => {
                r.push(i);
            },
            SlotKind::Custom { .. } => {},
        }
        i = i + 1;
    }
    r
}

/// The installation of a system bundle.
#[derive(Debug)]
pub struct SystemInstall {
    pub phase: SystemPhase,
    pub destinations: Vec<SystemPayloadDestination>,
    /// The payload that is being installed.
    pub payload: Option<PayloadFacts>,
    /// Digest and size of the payload that was written last.
    pub decoded: Option<(HashDigest, u64)>,
}

/// A phase and the action that begins it.
pub type SystemStep = (SystemPhase, SystemAction);

/// The end of an installation that failed.
pub open spec fn failed(error: SystemInstallError) -> SystemStep {
    (SystemPhase::Finished, SystemAction::Fail(error))
}

/// The step after the payloads were given their destinations.
pub open spec fn to_pre_update() -> SystemStep {
    (SystemPhase::PreUpdating, SystemAction::RunPreUpdate)
}

/// The step after the compatibility check.
pub open spec fn to_hooks(
    request: SystemInstallRequest,
    slots: SystemSlots,
    groups: BootGroups,
) -> SystemStep {
    match request.flow {
        InstallFlow::Operation => (SystemPhase::LoadingHooks, SystemAction::LoadHooks),
        InstallFlow::Command => match request.preflight(slots, groups) {
            Ok(_) => (SystemPhase::LoadingHooks, SystemAction::LoadHooks),
            Err(e) => failed(SystemInstallError::Preflight(e)),
        },
    }
}

/// The first step of an installation.
pub open spec fn first_step(
    request: SystemInstallRequest,
    slots: SystemSlots,
    groups: BootGroups,
) -> SystemStep {
    if request.skip_compatibility_check {
        match request.flow {
            InstallFlow::Operation => (
                SystemPhase::ReportingSkip,
                SystemAction::ReportSkip(SkipReason::Explicit),
            ),
            InstallFlow::Command => to_hooks(request, slots, groups),
        }
    } else if request.has_components {
        (
            SystemPhase::Checking,
            SystemAction::CheckComponents { incremental: request.is_incremental },
        )
    } else {
        match request.flow {
            InstallFlow::Operation => if request.requires_components {
                failed(SystemInstallError::ComponentsRequired)
            } else {
                (SystemPhase::ReportingSkip, SystemAction::ReportSkip(SkipReason::NoMetadata))
            },
            InstallFlow::Command => to_hooks(request, slots, groups),
        }
    }
}

/// The step that prepares the boot flow, for full updates.
pub open spec fn to_pre_install(request: SystemInstallRequest) -> SystemStep {
    if request.is_incremental {
        (SystemPhase::LoadingProgressHooks, SystemAction::LoadProgressHooks)
    } else {
        match request.target {
            Some(group) => (SystemPhase::PreInstalling, SystemAction::PreInstall { group }),
            None => failed(SystemInstallError::MissingTarget),
        }
    }
}

/// The step after the `pre-update` hooks.
pub open spec fn to_overlay(request: SystemInstallRequest) -> SystemStep {
    if !request.keep_overlay && request.target is Some {
        (SystemPhase::ClearingOverlay, SystemAction::ClearOverlay { group: request.target->0 })
    } else {
        to_pre_install(request)
    }
}

/// The step that writes a payload to a slot.
pub open spec fn to_write(slot: usize, slots: SystemSlots, payload: PayloadFacts) -> SystemStep {
    match payload.delta_encoding {
        Some(delta) => if delta.inputs@.len() != 1 {
            failed(SystemInstallError::DeltaInputs)
        } else {
            (SystemPhase::ReadingStates { slot }, SystemAction::ReadStates)
        },
        None => match slots.slots@[slot as int].kind {
            SlotKind::Block { device } => if device is None {
                failed(SystemInstallError::AbsentDevice { slot })
            } else {
                (SystemPhase::Writing { slot, delta: false }, SystemAction::WriteBlock { slot })
            },
            SlotKind::File { .. } => (
                SystemPhase::Writing { slot, delta: false },
                SystemAction::WriteFile { slot },
            ),
            SlotKind::Custom { handler } => if handler@.len() == 0 {
                failed(SystemInstallError::EmptyHandler)
            } else {
                (SystemPhase::Writing { slot, delta: false }, SystemAction::WriteCustom { slot })
            },
        },
    }
}

/// The step that makes the config partition writable, for files on it.
pub open spec fn to_guard(
    slot: usize,
    request: SystemInstallRequest,
    slots: SystemSlots,
    payload: PayloadFacts,
) -> SystemStep {
    match slots.slots@[slot as int].kind {
        SlotKind::File { path } => if request.config_path is Some && is_beneath(
            path@,
            request.config_path->0@,
        ) {
            (SystemPhase::AcquiringGuard { slot }, SystemAction::AcquireWriteGuard { slot })
        } else {
            to_write(slot, slots, payload)
        },
        _ => to_write(slot, slots, payload),
    }
}

/// The step after the stored state of a slot is erased.
pub open spec fn to_blocks(
    slot: usize,
    request: SystemInstallRequest,
    slots: SystemSlots,
    payload: PayloadFacts,
) -> SystemStep {
    if request.allow_missing_block_index {
        to_guard(slot, request, slots, payload)
    } else if !payload.has_block_index {
        failed(SystemInstallError::MissingBlockIndex { payload: payload.index })
    } else {
        (SystemPhase::ProvidingBlocks { slot }, SystemAction::ProvideBlocks)
    }
}

/// The step that begins the installation of a payload.
pub open spec fn to_payload(
    destinations: Seq<SystemPayloadDestination>,
    payload: PayloadFacts,
) -> SystemStep {
    if payload.index >= destinations.len() {
        failed(SystemInstallError::MissingFromIndex { payload: payload.index })
    } else {
        match destinations[payload.index as int] {
            SystemPayloadDestination::Slot(slot) => (
                SystemPhase::Erasing { slot },
                SystemAction::Erase { slot },
            ),
            SystemPayloadDestination::Execute => match payload.handler {
                None => failed(SystemInstallError::MissingHandler),
                Some(handler) => if handler@.len() == 0 {
                    failed(SystemInstallError::EmptyHandler)
                } else {
                    (SystemPhase::Executing, SystemAction::Execute)
                },
            },
        }
    }
}

/// The step that writes a difference, once the stored states are known.
pub open spec fn to_delta(
    slot: usize,
    slots: SystemSlots,
    delta: DeltaEncoding,
    states: Seq<Option<SlotState>>,
) -> SystemStep {
    match delta_source(states, delta.inputs@[0]@, 0) {
        None => failed(SystemInstallError::NoDeltaSource),
        Some(source) => if source >= slots.slots@.len() {
            failed(SystemInstallError::UnexpectedOutcome)
        } else {
            match slots.slots@[source as int].kind {
                SlotKind::Custom { .. } => failed(SystemInstallError::CustomDeltaSource),
                SlotKind::Block { device: None } => failed(
                    SystemInstallError::AbsentDevice { slot: source },
                ),
                _ => match slots.slots@[slot as int].kind {
                    SlotKind::Custom { .. } => failed(SystemInstallError::CustomDeltaTarget),
                    SlotKind::Block { device: None } => failed(
                        SystemInstallError::AbsentDevice { slot },
                    ),
                    _ => (
                        SystemPhase::Writing { slot, delta: true },
                        SystemAction::WriteDelta { source, slot },
                    ),
                },
            }
        },
    }
}

/// The step after everything is written.
pub open spec fn to_post_install(request: SystemInstallRequest) -> SystemStep {
    if request.is_incremental {
        (SystemPhase::PostUpdating, SystemAction::RunPostUpdate)
    } else {
        match request.target {
            Some(group) => (SystemPhase::PostInstalling, SystemAction::PostInstall { group }),
            None => failed(SystemInstallError::MissingTarget),
        }
    }
}

/// What follows an installation unless told otherwise: a full update is booted.
pub open spec fn default_mode(request: SystemInstallRequest) -> SystemRebootMode {
    if request.is_incremental {
        SystemRebootMode::No
    } else {
        SystemRebootMode::Yes
    }
}

impl SystemInstall {
    /// What each phase presupposes: once payloads have destinations, they are those
    /// of the preflight; a slot that is written to is available and inactive.
    pub open spec fn wf(
        self,
        request: SystemInstallRequest,
        slots: SystemSlots,
        groups: BootGroups,
    ) -> bool {
        &&& self.phase.is_prepared(request.flow) ==> request.preflight(slots, groups) == Ok::<
            Seq<SystemPayloadDestination>,
            PreflightError,
        >(self.destinations@)
        &&& self.phase.slot() matches Some(slot) ==> is_writable_slot(slots.slots@, slot)
            && self.payload is Some
        &&& self.phase.needs_delta() ==> self.payload is Some && self.payload->0.delta_encoding is Some
            && self.payload->0.delta_encoding->0.inputs@.len() == 1
    }

    /// The step that follows an outcome.
    pub open spec fn step(
        self,
        request: SystemInstallRequest,
        slots: SystemSlots,
        groups: BootGroups,
        event: SystemEvent,
    ) -> SystemStep {
        if event is Failed {
            failed(SystemInstallError::ActionFailed)
        } else {
            match (self.phase, event) {
                (SystemPhase::ReportingSkip, SystemEvent::Done) => to_hooks(request, slots, groups),
                (SystemPhase::Checking, SystemEvent::Done) => to_hooks(request, slots, groups),
                (SystemPhase::Checking, SystemEvent::Incompatible) => (
                    SystemPhase::ReportingIncompatible,
                    SystemAction::ReportIncompatible,
                ),
                (SystemPhase::ReportingIncompatible, SystemEvent::Done) => failed(
                    SystemInstallError::Incompatible,
                ),
                (SystemPhase::LoadingHooks, SystemEvent::Done) => match request.flow {
                    InstallFlow::Operation => match request.preflight(slots, groups) {
                        Ok(_) => to_pre_update(),
                        Err(e) => failed(SystemInstallError::Preflight(e)),
                    },
                    InstallFlow::Command => to_pre_update(),
                },
                (SystemPhase::PreUpdating, SystemEvent::Done) => to_overlay(request),
                (SystemPhase::ClearingOverlay, SystemEvent::Done) => to_pre_install(request),
                (SystemPhase::PreInstalling, SystemEvent::Done) => (
                    SystemPhase::LoadingProgressHooks,
                    SystemAction::LoadProgressHooks,
                ),
                (SystemPhase::LoadingProgressHooks, SystemEvent::Done) => (
                    SystemPhase::Reading,
                    SystemAction::NextPayload,
                ),
                (SystemPhase::Reading, SystemEvent::Payload(payload)) => to_payload(
                    self.destinations@,
                    payload,
                ),
                (SystemPhase::Reading, SystemEvent::End) => (
                    SystemPhase::ReportingWritten,
                    SystemAction::ReportWritten,
                ),
                (SystemPhase::Erasing { slot }, SystemEvent::Done) => to_blocks(
                    slot,
                    request,
                    slots,
                    self.payload->0,
                ),
                (SystemPhase::ProvidingBlocks { slot }, SystemEvent::Done) => to_guard(
                    slot,
                    request,
                    slots,
                    self.payload->0,
                ),
                (SystemPhase::AcquiringGuard { slot }, SystemEvent::Done) => to_write(
                    slot,
                    slots,
                    self.payload->0,
                ),
                (SystemPhase::ReadingStates { slot }, SystemEvent::States(states)) => to_delta(
                    slot,
                    slots,
                    self.payload->0.delta_encoding->0,
                    states@,
                ),
                (SystemPhase::Writing { slot, delta }, SystemEvent::Written { digest, size }) => if delta
                    && digest@ != self.payload->0.delta_encoding->0.original_hash@ {
                    failed(SystemInstallError::HashMismatch)
                } else {
                    (
                        SystemPhase::Saving { slot },
                        SystemAction::Save {
                            slot,
                            with_digest: slots.slots@[slot as int].immutable,
                        },
                    )
                },
                (SystemPhase::Saving { .. }, SystemEvent::Done) => (
                    SystemPhase::Reading,
                    SystemAction::NextPayload,
                ),
                (SystemPhase::Executing, SystemEvent::Done) => (
                    SystemPhase::Reading,
                    SystemAction::NextPayload,
                ),
                (SystemPhase::ReportingWritten, SystemEvent::Done) => to_post_install(request),
                (SystemPhase::PostInstalling, SystemEvent::Done) => (
                    SystemPhase::PostUpdating,
                    SystemAction::RunPostUpdate,
                ),
                (SystemPhase::PostUpdating, SystemEvent::Done) => (
                    SystemPhase::Finished,
                    SystemAction::Done(default_mode(request)),
                ),
                _ => failed(SystemInstallError::UnexpectedOutcome),
            }
        }
    }

    /// Whether an outcome leads from this state to another one and to the next action.
    pub open spec fn follows(
        self,
        request: SystemInstallRequest,
        slots: SystemSlots,
        groups: BootGroups,
        event: SystemEvent,
        after: SystemInstall,
        action: SystemAction,
    ) -> bool {
        &&& after.wf(request, slots, groups)
        &&& (after.phase, action) == self.step(request, slots, groups, event)
        &&& after.payload == match (self.phase, event) {
            (SystemPhase::Reading, SystemEvent::Payload(payload)) => Some(payload),
            _ => self.payload,
        }
        &&& after.decoded == match (action, event) {
            (SystemAction::Save { .. }, SystemEvent::Written { digest, size }) => Some(
                (digest, size),
            ),
            _ => self.decoded,
        }
    }

    fn group_of<'a>(request: &SystemInstallRequest, groups: &'a BootGroups) -> (r: Option<
        &'a BootGroup,
    >)
        requires
            request.target matches Some(i) ==> i < groups.groups@.len(),
        ensures
            match r {
                Some(group) => request.group(*groups) == Some(*group),
                None => request.group(*groups) is None,
            },
    {
        match request.target {
            Some(i) => Some(&groups.groups[i]),
            None => None,
        }
    }

    fn prepare(
        request: &SystemInstallRequest,
        slots: &SystemSlots,
        groups: &BootGroups,
    ) -> (r: Result<Vec<SystemPayloadDestination>, PreflightError>)
        requires
            request.wf(*slots, *groups),
        ensures
            match r {
                Ok(all) => request.preflight(*slots, *groups) == Ok::<
                    Seq<SystemPayloadDestination>,
                    PreflightError,
                >(all@),
                Err(e) => request.preflight(*slots, *groups) == Err::<
                    Seq<SystemPayloadDestination>,
                    PreflightError,
                >(e),
            },
    {
        let group = Self::group_of(request, groups);
        preflight_system_deliveries(request.is_incremental, &request.deliveries, slots, group)
    }

    fn after_check(
        &mut self,
        request: &SystemInstallRequest,
        slots: &SystemSlots,
        groups: &BootGroups,
    ) -> (action: SystemAction)
        requires
            request.wf(*slots, *groups),
        ensures
            (final(self).phase, action) == to_hooks(*request, *slots, *groups),
            final(self).wf(*request, *slots, *groups),
            final(self).payload == old(self).payload,
            final(self).decoded == old(self).decoded,
    {
        match request.flow {
            InstallFlow::Operation => {
                self.phase = SystemPhase::LoadingHooks;
                SystemAction::LoadHooks
            },
            InstallFlow::Command => match Self::prepare(request, slots, groups) {
                Ok(all) => {
                    self.destinations = all;
                    self.phase = SystemPhase::LoadingHooks;
                    SystemAction::LoadHooks
                },
                Err(e) => {
                    self.phase = SystemPhase::Finished;
                    SystemAction::Fail(SystemInstallError::Preflight(e))
                },
            },
        }
    }

    /// Begins the installation of a system bundle.
    pub fn begin(
        request: &SystemInstallRequest,
        slots: &SystemSlots,
        groups: &BootGroups,
    ) -> (r: (SystemInstall, SystemAction))
        requires
            request.wf(*slots, *groups),
        ensures
            (r.0.phase, r.1) == first_step(*request, *slots, *groups),
            r.0.wf(*request, *slots, *groups),
            r.0.payload is None,
            r.0.decoded is None,
            !r.1.changes_system(),
    {
        let mut install = SystemInstall {
            phase: SystemPhase::Finished,
            destinations: Vec::new(),
            payload: None,
            decoded: None,
        };
        let operation = request.flow == InstallFlow::Operation;
        let action = if !request.skip_compatibility_check && request.has_components {
            install.phase = SystemPhase::Checking;
            SystemAction::CheckComponents { incremental: request.is_incremental }
        } else if !operation {
            install.after_check(request, slots, groups)
        } else if request.skip_compatibility_check {
            install.phase = SystemPhase::ReportingSkip;
            SystemAction::ReportSkip(SkipReason::Explicit)
        } else if request.requires_components {
            install.phase = SystemPhase::Finished;
            SystemAction::Fail(SystemInstallError::ComponentsRequired)
        } else {
            install.phase = SystemPhase::ReportingSkip;
            SystemAction::ReportSkip(SkipReason::NoMetadata)
        };
        (install, action)
    }

    fn pre_install(request: &SystemInstallRequest) -> (r: SystemStep)
        ensures
            r == to_pre_install(*request),
    {
        if request.is_incremental {
            return (SystemPhase::LoadingProgressHooks, SystemAction::LoadProgressHooks);
        }
        match request.target {
            Some(group) => (SystemPhase::PreInstalling, SystemAction::PreInstall { group }),
            None => (
                SystemPhase::Finished,
                SystemAction::Fail(SystemInstallError::MissingTarget),
            ),
        }
    }

    fn overlay(request: &SystemInstallRequest) -> (r: SystemStep)
        ensures
            r == to_overlay(*request),
    {
        if !request.keep_overlay {
            if let Some(group) = request.target {
                return (SystemPhase::ClearingOverlay, SystemAction::ClearOverlay { group });
            }
        }
        Self::pre_install(request)
    }

    fn write(slot: usize, slots: &SystemSlots, payload: &PayloadFacts) -> (r: SystemStep)
        requires
            slot < slots.slots@.len(),
        ensures
            r == to_write(slot, *slots, *payload),
    {
        match &payload.delta_encoding {
            Some(delta) => if delta.inputs.len() != 1 {
                (SystemPhase::Finished, SystemAction::Fail(SystemInstallError::DeltaInputs))
            } else {
                (SystemPhase::ReadingStates { slot }, SystemAction::ReadStates)
            },
            None => match &slots.slots[slot].kind {
                SlotKind::Block { device } => if device.is_none() {
                    (
                        SystemPhase::Finished,
                        SystemAction::Fail(SystemInstallError::AbsentDevice { slot }),
                    )
                } else {
                    (SystemPhase::Writing { slot, delta: false }, SystemAction::WriteBlock { slot })
                },
                SlotKind::File { .. } => (
                    SystemPhase::Writing { slot, delta: false },
                    SystemAction::WriteFile { slot },
                ),
                SlotKind::Custom { handler } => if handler.len() == 0 {
                    (SystemPhase::Finished, SystemAction::Fail(SystemInstallError::EmptyHandler))
                } else {
                    (
                        SystemPhase::Writing { slot, delta: false },
                        SystemAction::WriteCustom { slot },
                    )
                },
            },
        }
    }

    fn guard(
        slot: usize,
        request: &SystemInstallRequest,
        slots: &SystemSlots,
        payload: &PayloadFacts,
    ) -> (r: SystemStep)
        requires
            slot < slots.slots@.len(),
        ensures
            r == to_guard(slot, *request, *slots, *payload),
    {
        if let SlotKind::File { path } = &slots.slots[slot].kind {
            if let Some(config_path) = &request.config_path {
                if starts_with(path.as_str(), config_path.as_str()) {
                    return (
                        SystemPhase::AcquiringGuard { slot },
                        SystemAction::AcquireWriteGuard { slot },
                    );
                }
            }
        }
        Self::write(slot, slots, payload)
    }

    fn blocks(
        slot: usize,
        request: &SystemInstallRequest,
        slots: &SystemSlots,
        payload: &PayloadFacts,
    ) -> (r: SystemStep)
        requires
            slot < slots.slots@.len(),
        ensures
            r == to_blocks(slot, *request, *slots, *payload),
    {
        if request.allow_missing_block_index {
            return Self::guard(slot, request, slots, payload);
        }
        if !payload.has_block_index {
            let error = SystemInstallError::MissingBlockIndex { payload: payload.index };
            return (SystemPhase::Finished, SystemAction::Fail(error));
        }
        (SystemPhase::ProvidingBlocks { slot }, SystemAction::ProvideBlocks)
    }

    fn enter_payload(
        destinations: &Vec<SystemPayloadDestination>,
        payload: &PayloadFacts,
    ) -> (r: SystemStep)
        ensures
            r == to_payload(destinations@, *payload),
    {
        if payload.index >= destinations.len() {
            let error = SystemInstallError::MissingFromIndex { payload: payload.index };
            return (SystemPhase::Finished, SystemAction::Fail(error));
        }
        match destinations[payload.index] {
            SystemPayloadDestination::Slot(slot) => (
                SystemPhase::Erasing { slot },
                SystemAction::Erase { slot },
            ),
            SystemPayloadDestination::Execute => match &payload.handler {
                None => (
                    SystemPhase::Finished,
                    SystemAction::Fail(SystemInstallError::MissingHandler),
                ),
                Some(handler) => if handler.len() == 0 {
                    (SystemPhase::Finished, SystemAction::Fail(SystemInstallError::EmptyHandler))
                } else {
                    (SystemPhase::Executing, SystemAction::Execute)
                },
            },
        }
    }

    fn delta(
        slot: usize,
        slots: &SystemSlots,
        delta: &DeltaEncoding,
        states: &Vec<Option<SlotState>>,
    ) -> (r: SystemStep)
        requires
            slot < slots.slots@.len(),
            delta.inputs@.len() == 1,
        ensures
            r == to_delta(slot, *slots, *delta, states@),
    {
        let source: usize = match find_delta_source(states, &delta.inputs[0]) {
            Some(source) => source,
            None => return (
                SystemPhase::Finished,
                SystemAction::Fail(SystemInstallError::NoDeltaSource),
            ),
        };
        if source >= slots.slots.len() {
            return (
                SystemPhase::Finished,
                SystemAction::Fail(SystemInstallError::UnexpectedOutcome),
            );
        }
        match &slots.slots[source].kind {
            SlotKind::Custom { .. } => return (
                SystemPhase::Finished,
                SystemAction::Fail(SystemInstallError::CustomDeltaSource),
            ),
            SlotKind::Block { device } => if device.is_none() {
                return (
                    SystemPhase::Finished,
                    SystemAction::Fail(SystemInstallError::AbsentDevice { slot: source }),
                );
            },
            SlotKind::File { .. } => {},
        }
        match &slots.slots[slot].kind {
            SlotKind::Custom { .. } => return (
                SystemPhase::Finished,
                SystemAction::Fail(SystemInstallError::CustomDeltaTarget),
            ),
            SlotKind::Block { device } => if device.is_none() {
                return (
                    SystemPhase::Finished,
                    SystemAction::Fail(SystemInstallError::AbsentDevice { slot }),
                );
            },
            SlotKind::File { .. } => {},
        }
        (SystemPhase::Writing { slot, delta: true }, SystemAction::WriteDelta { source, slot })
    }

    fn post_install(request: &SystemInstallRequest) -> (r: SystemStep)
        ensures
            r == to_post_install(*request),
    {
        if request.is_incremental {
            return (SystemPhase::PostUpdating, SystemAction::RunPostUpdate);
        }
        match request.target {
            Some(group) => (SystemPhase::PostInstalling, SystemAction::PostInstall { group }),
            None => (
                SystemPhase::Finished,
                SystemAction::Fail(SystemInstallError::MissingTarget),
            ),
        }
    }

    /// Takes the outcome of the last action and names the next one.
    ///
    /// Nothing is changed before every payload has its destination; only slots that
    /// are available and inactive are written to; the state of a slot is stored only
    /// after its data was written, with the digest where the slot is immutable; and
    /// the boot flow is told of the installation only after the last payload.
    #[verifier::rlimit(40)]
    pub fn next(
        &mut self,
        request: &SystemInstallRequest,
        slots: &SystemSlots,
        groups: &BootGroups,
        event: SystemEvent,
    ) -> (action: SystemAction)
        requires
            request.wf(*slots, *groups),
            old(self).wf(*request, *slots, *groups),
        ensures
            old(self).follows(*request, *slots, *groups, event, *final(self), action),
            (final(self).phase, action) == old(self).step(*request, *slots, *groups, event),
            final(self).wf(*request, *slots, *groups),
            final(self).payload == match (old(self).phase, event) {
                (SystemPhase::Reading, SystemEvent::Payload(payload)) => Some(payload),
                _ => old(self).payload,
            },
            final(self).decoded == if action is Save {
                Some((event->digest, event->size))
            } else {
                old(self).decoded
            },
            action.changes_system() ==> request.preflight(*slots, *groups) == Ok::<
                Seq<SystemPayloadDestination>,
                PreflightError,
            >(final(self).destinations@),
            action.target_slot() matches Some(slot) ==> is_writable_slot(slots.slots@, slot),
            action is Save ==> event is Written,
            action is PostInstall ==> old(self).phase is ReportingWritten,
            action is ReportWritten ==> event is End,
    {
        match &event {
            SystemEvent::Failed => {
                self.phase = SystemPhase::Finished;
                return SystemAction::Fail(SystemInstallError::ActionFailed);
            },
            _ => {},
        }
        let phase = self.phase;
        let step: SystemStep = match (phase, event) {
            (SystemPhase::ReportingSkip, SystemEvent::Done) => {
                return self.after_check(request, slots, groups);
            },
            (SystemPhase::Checking, SystemEvent::Done) => {
                return self.after_check(request, slots, groups);
            },
            (SystemPhase::Checking, SystemEvent::Incompatible) => (
                SystemPhase::ReportingIncompatible,
                SystemAction::ReportIncompatible,
            ),
            (SystemPhase::ReportingIncompatible, SystemEvent::Done) => (
                SystemPhase::Finished,
                SystemAction::Fail(SystemInstallError::Incompatible),
            ),
            (SystemPhase::LoadingHooks, SystemEvent::Done) => match request.flow {
                InstallFlow::Operation => match Self::prepare(request, slots, groups) {
                    Ok(all) => {
                        self.destinations = all;
                        (SystemPhase::PreUpdating, SystemAction::RunPreUpdate)
                    },
                    Err(e) => (
                        SystemPhase::Finished,
                        SystemAction::Fail(SystemInstallError::Preflight(e)),
                    ),
                },
                InstallFlow::Command => (SystemPhase::PreUpdating, SystemAction::RunPreUpdate),
            },
            (SystemPhase::PreUpdating, SystemEvent::Done) => Self::overlay(request),
            (SystemPhase::ClearingOverlay, SystemEvent::Done) => Self::pre_install(request),
            (SystemPhase::PreInstalling, SystemEvent::Done) => (
                SystemPhase::LoadingProgressHooks,
                SystemAction::LoadProgressHooks,
            ),
            (SystemPhase::LoadingProgressHooks, SystemEvent::Done) => (
                SystemPhase::Reading,
                SystemAction::NextPayload,
            ),
            (SystemPhase::Reading, SystemEvent::Payload(payload)) => {
                proof {
                    assert(slots.slots@.len() == slots.slots.len());
                    law_preflight_protects_the_running_system(
                        request.is_incremental,
                        request.deliveries@,
                        slots.slots@,
                        request.group(*groups),
                    );
                }
                let step = Self::enter_payload(&self.destinations, &payload);
                self.payload = Some(payload);
                step
            },
            (SystemPhase::Reading, SystemEvent::End) => (
                SystemPhase::ReportingWritten,
                SystemAction::ReportWritten,
            ),
            (SystemPhase::Erasing { slot }, SystemEvent::Done) => match &self.payload {
                Some(payload) => Self::blocks(slot, request, slots, payload),
                None => (
                    SystemPhase::Finished,
                    SystemAction::Fail(SystemInstallError::UnexpectedOutcome),
                ),
            },
            (SystemPhase::ProvidingBlocks { slot }, SystemEvent::Done) => match &self.payload {
                Some(payload) => Self::guard(slot, request, slots, payload),
                None => (
                    SystemPhase::Finished,
                    SystemAction::Fail(SystemInstallError::UnexpectedOutcome),
                ),
            },
            (SystemPhase::AcquiringGuard { slot }, SystemEvent::Done) => match &self.payload {
                Some(payload) => Self::write(slot, slots, payload),
                None => (
                    SystemPhase::Finished,
                    SystemAction::Fail(SystemInstallError::UnexpectedOutcome),
                ),
            },
            (SystemPhase::ReadingStates { slot }, SystemEvent::States(states)) => {
                let payload = self.payload.as_ref().unwrap();
                let delta = payload.delta_encoding.as_ref().unwrap();
                Self::delta(slot, slots, delta, &states)
            },
            (SystemPhase::Writing { slot, delta }, SystemEvent::Written { digest, size }) => {
                let intact = if delta {
                    let payload = self.payload.as_ref().unwrap();
                    let encoding = payload.delta_encoding.as_ref().unwrap();
                    digest.equals(&encoding.original_hash)
                } else {
                    true
                };
                if intact {
                    self.decoded = Some((digest, size));
                    let with_digest = slots.slots[slot].immutable;
                    (SystemPhase::Saving { slot }, SystemAction::Save { slot, with_digest })
                } else {
                    (SystemPhase::Finished, SystemAction::Fail(SystemInstallError::HashMismatch))
                }
            },
            (SystemPhase::Saving { .. }, SystemEvent::Done) => (
                SystemPhase::Reading,
                SystemAction::NextPayload,
            ),
            (SystemPhase::Executing, SystemEvent::Done) => (
                SystemPhase::Reading,
                SystemAction::NextPayload,
            ),
            (SystemPhase::ReportingWritten, SystemEvent::Done) => Self::post_install(request),
            (SystemPhase::PostInstalling, SystemEvent::Done) => (
                SystemPhase::PostUpdating,
                SystemAction::RunPostUpdate,
            ),
            (SystemPhase::PostUpdating, SystemEvent::Done) => {
                let mode = if request.is_incremental {
                    SystemRebootMode::No
                } else {
                    SystemRebootMode::Yes
                };
                (SystemPhase::Finished, SystemAction::Done(mode))
            },
            _ => (
                SystemPhase::Finished,
                SystemAction::Fail(SystemInstallError::UnexpectedOutcome),
            ),
        };
        self.phase = step.0;
        step.1
    }
}

/// Where the payloads cannot be given destinations, nothing is changed and no hooks are run,
/// whatever comes of the actions.
pub proof fn law_failed_preflight_changes_nothing(
    install: SystemInstall,
    request: SystemInstallRequest,
    slots: SystemSlots,
    groups: BootGroups,
    event: SystemEvent,
)
    requires
        install.wf(request, slots, groups),
        request.preflight(slots, groups) is Err,
    ensures
        !install.step(request, slots, groups, event).1.changes_system(),
{
}

/// A failed action ends the installation: nothing is stored of the slot that was being
/// written, and the boot flow is not told of the group.
pub proof fn law_failed_action_ends_the_installation(
    install: SystemInstall,
    request: SystemInstallRequest,
    slots: SystemSlots,
    groups: BootGroups,
)
    ensures
        install.step(request, slots, groups, SystemEvent::Failed) == (
            SystemPhase::Finished,
            SystemAction::Fail(SystemInstallError::ActionFailed),
        ),
        forall|event: SystemEvent|
            install.phase is Finished ==> (#[trigger] install.step(
                request,
                slots,
                groups,
                event,
            )).1 is Fail,
{
}

proof fn lemma_delta_source(states: Seq<Option<SlotState>>, hashes: Seq<HashDigest>, from: nat)
    requires
        states.len() <= usize::MAX,
    ensures
        match delta_source(states, hashes, from) {
            Some(i) => from <= i < states.len() && state_matches(states[i as int], hashes)
                && forall|k: int| from <= k < i ==> !state_matches(#[trigger] states[k], hashes),
            None => forall|k: int|
                from <= k < states.len() ==> !state_matches(#[trigger] states[k], hashes),
        },
    decreases states.len() - from,
{
    if from < states.len() && !state_matches(states[from as int], hashes) {
        lemma_delta_source(states, hashes, from + 1);
    }
}

/// A difference is applied to the first slot that is known to hold its input: one of the
/// digests of the input is stored for it. There is none where no slot holds it.
pub proof fn law_delta_is_applied_to_its_input(
    states: Seq<Option<SlotState>>,
    hashes: Seq<HashDigest>,
)
    requires
        states.len() <= usize::MAX,
    ensures
        match delta_source(states, hashes, 0) {
            Some(i) => i < states.len() && state_matches(states[i as int], hashes) && forall|k: int|
                0 <= k < i ==> !state_matches(#[trigger] states[k], hashes),
            None => forall|k: int|
                0 <= k < states.len() ==> !state_matches(#[trigger] states[k], hashes),
        },
{
    lemma_delta_source(states, hashes, 0);
}

proof fn lemma_block_sources(slots: Seq<Slot>, n: nat)
    requires
        n <= slots.len() <= usize::MAX,
    ensures
        forall|i: usize| #[trigger]
            block_sources(slots, n).contains(i) <==> i < n && slots[i as int].available()
                && !(slots[i as int].kind is Custom),
        forall|a: int, b: int|
            0 <= a < b < block_sources(slots, n).len() ==> (#[trigger] block_sources(slots, n)[a])
                < (#[trigger] block_sources(slots, n)[b]),
    decreases n,
{
    if n > 0 {
        lemma_block_sources(slots, (n - 1) as nat);
        let before = block_sources(slots, (n - 1) as nat);
        let all = block_sources(slots, n);
        assert forall|i: usize| #[trigger] all.contains(i) <==> i < n && slots[i as int].available()
            && !(slots[i as int].kind is Custom) by {
            if before.contains(i) {
                let k = choose|k: int| 0 <= k < before.len() && before[k] == i;
                assert(all[k] == i);
            }
            if all.contains(i) {
                let k = choose|k: int| 0 <= k < all.len() && all[k] == i;
                if k < before.len() {
                    assert(before[k] == i);
                    assert(before.contains(i));
                }
            }
            if i == n - 1 && slots[i as int].available() && !(slots[i as int].kind is Custom) {
                assert(all[before.len() as int] == i);
            }
        }
        assert forall|a: int, b: int| 0 <= a < b < all.len() implies (#[trigger] all[a]) < (
        #[trigger] all[b]) by {
            assert(all[a] == before[a]);
            if b < before.len() {
                assert(all[b] == before[b]);
            } else {
                assert(before.contains(before[a]));
            }
        }
    }
}

/// Blocks are taken from every slot whose data can be read, and from no other one: each once,
/// in the order of the slots.
pub proof fn law_blocks_come_from_readable_slots(slots: Seq<Slot>)
    requires
        slots.len() <= usize::MAX,
    ensures
        forall|i: usize| #[trigger]
            block_sources(slots, slots.len()).contains(i) <==> i < slots.len()
                && slots[i as int].available() && !(slots[i as int].kind is Custom),
        forall|a: int, b: int|
            0 <= a < b < block_sources(slots, slots.len()).len() ==> (#[trigger] block_sources(
                slots,
                slots.len(),
            )[a]) < (#[trigger] block_sources(slots, slots.len())[b]),
{
    lemma_block_sources(slots, slots.len());
}

} // verus!

//! Setting up the state of the system and handing over to its init.

use vstd::prelude::*;
use crate::path::{join, path_join};
use crate::state::OverlayConfig;
use crate::text::{chars_of, opt_view, trim, trimmed};

verus! {

/// Where the state profiles are.
pub open spec fn profiles_dir() -> Seq<char> {
    "/run/rugix/mounts/data/state/"@
}

/// Where the state profile is that is used.
pub open spec fn default_profile() -> Seq<char> {
    "/run/rugix/mounts/data/state/default"@
}

/// Where the state profile is that is used.
pub fn default_state_dir() -> (r: &'static str)
    ensures
        r@ == default_profile(),
{
    "/run/rugix/mounts/data/state/default"
}

/// The name of the profile that a reset moves the state to; a blank name asks for the
/// state to be removed. A flag that could not be read is blank.
pub open spec fn backup_profile(flag: Option<Seq<char>>) -> Option<Seq<char>> {
    match flag {
        Some(name) => if trimmed(name).len() == 0 {
            None
        } else {
            Some(path_join(profiles_dir(), name))
        },
        None => None,
    }
}

/// Where a reset moves the state, or nothing where it is removed.
pub fn resolve_backup(flag: &Option<String>) -> (r: Option<String>)
    ensures
        opt_view(r) == backup_profile(opt_view(*flag)),
{
    match flag {
        Some(name) => {
            let text = trim(name.as_str());
            if chars_of(text.as_str()).len() == 0 {
                None
            } else {
                Some(join("/run/rugix/mounts/data/state/", name.as_str()))
            }
        },
        None => None,
    }
}

/// What the setup wants done next.
#[derive(Debug, Clone, Copy, PartialEq, Eq, Structural)]
pub enum StateAction {
    /// Create the directory where the data partition is mounted.
    CreateDataMountPoint,
    /// Find the data partition.
    FindDataPartition,
    /// Mount the data partition by its driver.
    MountData,
    /// Create the directory for the log of a failed mount.
    CreateMountErrorDir,
    /// Write down why the data partition could not be mounted.
    WriteMountError,
    /// Load the state configuration.
    LoadStateConfig,
    /// Create the directory where the system partition is mounted.
    CreateSystemMountPoint,
    /// Mount the system partition read-only.
    MountSystem,
    /// Reboot into the group that was deferred to, if there is one.
    CheckDeferredReboot,
    /// Find out whether a reset is requested.
    ProbeReset,
    /// Read the flag that requests the reset.
    ReadResetFlag,
    /// Load the `state-reset` hooks.
    LoadResetHooks,
    /// Run the `pre-reset` hooks.
    RunPreReset,
    /// Remove the state.
    RemoveProfile,
    /// Move the state to the backup profile.
    MoveProfile,
    /// Remove the flag from the backup profile.
    RemoveBackupFlag,
    /// Run the `post-reset` hooks.
    RunPostReset,
    /// Create the directory of the state profile.
    CreateProfile,
    /// Create the directory of the state of the running system.
    CreateStateDir,
    /// Make the state profile appear there.
    BindState,
    /// Set up the overlay of the root filesystem.
    SetupOverlay,
    /// Set up the bind mounts of the persistent state.
    SetupPersistentState,
    /// Hand over to the init of the system.
    ExecInit,
    /// The setup returned.
    Done,
    /// The setup failed.
    Fail(StateError),
}

/// Why the setup failed.
#[derive(Debug, Clone, Copy, PartialEq, Eq, Structural)]
pub enum StateError {
    /// A data partition is required.
    NoDataPartition,
    /// The last action failed.
    ActionFailed,
    /// The outcome is not one of the last action.
    UnexpectedOutcome,
}

/// Outcome of an action.
#[derive(Debug)]
pub enum StateEvent {
    /// The action succeeded.
    Done,
    /// The action failed.
    Failed,
    /// What is looked for is not there.
    NotFound,
    /// The configured overlay.
    Config { overlay: Option<OverlayConfig> },
    /// Whether a reset is requested.
    Reset(bool),
    /// The contents of the flag, where it could be read.
    Flag(Option<String>),
}

/// Progress of the setup.
#[derive(Debug, Clone, Copy, PartialEq, Eq, Structural)]
pub enum StatePhase {
    CreatingDataMountPoint,
    FindingDataPartition,
    MountingData,
    CreatingMountErrorDir,
    WritingMountError,
    LoadingConfig,
    CreatingSystemMountPoint,
    MountingSystem,
    CheckingDeferredReboot,
    ProbingReset,
    ReadingFlag,
    LoadingResetHooks,
    PreReset,
    Resetting { backup: bool },
    RemovingBackupFlag,
    PostReset,
    CreatingProfile,
    CreatingStateDir,
    BindingState,
    SettingUpOverlay,
    SettingUpPersistentState,
    ExecutingInit,
    Finished,
}

/// The setup of the state.
#[derive(Debug)]
pub struct StateSetup {
    pub phase: StatePhase,
    /// Where a reset moves the state, unless it is removed.
    pub backup: Option<String>,
}

/// A phase and the action that begins it.
pub type StateStep = (StatePhase, StateAction);

/// The end of a setup that failed.
pub open spec fn state_failed(error: StateError) -> StateStep {
    (StatePhase::Finished, StateAction::Fail(error))
}

/// Whether a failure in this phase is of no consequence. Mounting the data partition is
/// such a phase: the system then comes up with state in memory.
pub open spec fn tolerates_failure(phase: StatePhase) -> bool {
    match phase {
        StatePhase::CreatingDataMountPoint => true,
        StatePhase::CreatingMountErrorDir => true,
        StatePhase::WritingMountError => true,
        StatePhase::CreatingSystemMountPoint => true,
        StatePhase::CheckingDeferredReboot => true,
        StatePhase::Resetting { .. } => true,
        StatePhase::RemovingBackupFlag => true,
        StatePhase::CreatingProfile => true,
        StatePhase::CreatingStateDir => true,
        _ => false,
    }
}

/// The step after a phase whose action is done, where only one can follow.
pub open spec fn after(phase: StatePhase, has_backup: bool) -> StateStep {
    match phase {
        StatePhase::CreatingDataMountPoint => (
            StatePhase::FindingDataPartition,
            StateAction::FindDataPartition,
        ),
        StatePhase::FindingDataPartition => (StatePhase::MountingData, StateAction::MountData),
        StatePhase::MountingData => (StatePhase::LoadingConfig, StateAction::LoadStateConfig),
        StatePhase::CreatingMountErrorDir => (
            StatePhase::WritingMountError,
            StateAction::WriteMountError,
        ),
        StatePhase::WritingMountError => (StatePhase::LoadingConfig, StateAction::LoadStateConfig),
        StatePhase::CreatingSystemMountPoint => (
            StatePhase::MountingSystem,
            StateAction::MountSystem,
        ),
        StatePhase::MountingSystem => (
            StatePhase::CheckingDeferredReboot,
            StateAction::CheckDeferredReboot,
        ),
        StatePhase::CheckingDeferredReboot => (StatePhase::ProbingReset, StateAction::ProbeReset),
        StatePhase::LoadingResetHooks => (StatePhase::PreReset, StateAction::RunPreReset),
        StatePhase::PreReset => if has_backup {
            (StatePhase::Resetting { backup: true }, StateAction::MoveProfile)
        } else {
            (StatePhase::Resetting { backup: false }, StateAction::RemoveProfile)
        },
        StatePhase::Resetting { backup } => if backup {
            (StatePhase::RemovingBackupFlag, StateAction::RemoveBackupFlag)
        } else {
            (StatePhase::PostReset, StateAction::RunPostReset)
        },
        StatePhase::RemovingBackupFlag => (StatePhase::PostReset, StateAction::RunPostReset),
        StatePhase::PostReset => (StatePhase::CreatingProfile, StateAction::CreateProfile),
        StatePhase::CreatingProfile => (StatePhase::CreatingStateDir, StateAction::CreateStateDir),
        StatePhase::CreatingStateDir => (StatePhase::BindingState, StateAction::BindState),
        StatePhase::BindingState => (StatePhase::SettingUpOverlay, StateAction::SetupOverlay),
        StatePhase::SettingUpOverlay => (
            StatePhase::SettingUpPersistentState,
            StateAction::SetupPersistentState,
        ),
        StatePhase::SettingUpPersistentState => (StatePhase::ExecutingInit, StateAction::ExecInit),
        StatePhase::ExecutingInit => (StatePhase::Finished, StateAction::Done),
        _ => state_failed(StateError::UnexpectedOutcome),
    }
}

impl StateSetup {
    /// The step that follows an outcome.
    pub open spec fn step(self, event: StateEvent) -> StateStep {
        match (self.phase, event) {
            (StatePhase::FindingDataPartition, StateEvent::NotFound) => state_failed(
                StateError::NoDataPartition,
            ),
            (StatePhase::MountingData, StateEvent::Failed) => (
                StatePhase::CreatingMountErrorDir,
                StateAction::CreateMountErrorDir,
            ),
            (StatePhase::LoadingConfig, StateEvent::Config { overlay }) => if overlay == Some(
                OverlayConfig::Disabled,
            ) {
                (StatePhase::CheckingDeferredReboot, StateAction::CheckDeferredReboot)
            } else {
                (StatePhase::CreatingSystemMountPoint, StateAction::CreateSystemMountPoint)
            },
            (StatePhase::ProbingReset, StateEvent::Reset(requested)) => if requested {
                (StatePhase::ReadingFlag, StateAction::ReadResetFlag)
            } else {
                (StatePhase::CreatingProfile, StateAction::CreateProfile)
            },
            (StatePhase::ReadingFlag, StateEvent::Flag(_)) => (
                StatePhase::LoadingResetHooks,
                StateAction::LoadResetHooks,
            ),
            (phase, StateEvent::Done) => after(phase, self.backup is Some),
            (phase, StateEvent::Failed) => if tolerates_failure(phase) {
                after(phase, self.backup is Some)
            } else {
                state_failed(StateError::ActionFailed)
            },
            _ => state_failed(StateError::UnexpectedOutcome),
        }
    }

    /// Where a reset moves the state, after an outcome.
    pub open spec fn next_backup(self, event: StateEvent) -> Option<Seq<char>> {
        match (self.phase, event) {
            (StatePhase::ReadingFlag, StateEvent::Flag(flag)) => backup_profile(
                opt_view(flag),
            ),
            _ => opt_view(self.backup),
        }
    }

    /// Whether an outcome leads from this state to another one and to the next action.
    pub open spec fn follows(self, event: StateEvent, after: StateSetup, action: StateAction) -> bool {
        &&& (after.phase, action) == self.step(event)
        &&& opt_view(after.backup) == self.next_backup(event)
    }

    /// Whether this is the state that a setup begins in.
    pub open spec fn begun(self) -> bool {
        self.phase is CreatingDataMountPoint && self.backup is None
    }

    /// Begins the setup.
    pub fn begin() -> (r: (StateSetup, StateAction))
        ensures
            r.0.begun(),
            r.0.phase == StatePhase::CreatingDataMountPoint,
            r.0.backup is None,
            r.1 == StateAction::CreateDataMountPoint,
    {
        (
            StateSetup { phase: StatePhase::CreatingDataMountPoint, backup: None },
            StateAction::CreateDataMountPoint,
        )
    }

    fn tolerates(phase: StatePhase) -> (r: bool)
        ensures
            r == tolerates_failure(phase),
    {
        match phase {
            StatePhase::CreatingDataMountPoint => true,
            StatePhase::CreatingMountErrorDir => true,
            StatePhase::WritingMountError => true,
            StatePhase::CreatingSystemMountPoint => true,
            StatePhase::CheckingDeferredReboot => true,
            StatePhase::Resetting { .. } => true,
            StatePhase::RemovingBackupFlag => true,
            StatePhase::CreatingProfile => true,
            StatePhase::CreatingStateDir => true,
            _ => false,
        }
    }

    fn advance(phase: StatePhase, has_backup: bool) -> (r: StateStep)
        ensures
            r == after(phase, has_backup),
    {
        match phase {
            StatePhase::CreatingDataMountPoint => (
                StatePhase::FindingDataPartition,
                StateAction::FindDataPartition,
            ),
            StatePhase::FindingDataPartition => (StatePhase::MountingData, StateAction::MountData),
            StatePhase::MountingData => (StatePhase::LoadingConfig, StateAction::LoadStateConfig),
            StatePhase::CreatingMountErrorDir => (
                StatePhase::WritingMountError,
                StateAction::WriteMountError,
            ),
            StatePhase::WritingMountError => (
                StatePhase::LoadingConfig,
                StateAction::LoadStateConfig,
            ),
            StatePhase::CreatingSystemMountPoint => (
                StatePhase::MountingSystem,
                StateAction::MountSystem,
            ),
            StatePhase::MountingSystem => (
                StatePhase::CheckingDeferredReboot,
                StateAction::CheckDeferredReboot,
            ),
            StatePhase::CheckingDeferredReboot => (
                StatePhase::ProbingReset,
                StateAction::ProbeReset,
            ),
            StatePhase::LoadingResetHooks => (StatePhase::PreReset, StateAction::RunPreReset),
            StatePhase::PreReset => if has_backup {
                (StatePhase::Resetting { backup: true }, StateAction::MoveProfile)
            } else {
                (StatePhase::Resetting { backup: false }, StateAction::RemoveProfile)
            },
            StatePhase::Resetting { backup } => if backup {
                (StatePhase::RemovingBackupFlag, StateAction::RemoveBackupFlag)
            } else {
                (StatePhase::PostReset, StateAction::RunPostReset)
            },
            StatePhase::RemovingBackupFlag => (StatePhase::PostReset, StateAction::RunPostReset),
            StatePhase::PostReset => (StatePhase::CreatingProfile, StateAction::CreateProfile),
            StatePhase::CreatingProfile => (
                StatePhase::CreatingStateDir,
                StateAction::CreateStateDir,
            ),
            StatePhase::CreatingStateDir => (StatePhase::BindingState, StateAction::BindState),
            StatePhase::BindingState => (StatePhase::SettingUpOverlay, StateAction::SetupOverlay),
            StatePhase::SettingUpOverlay => (
                StatePhase::SettingUpPersistentState,
                StateAction::SetupPersistentState,
            ),
            StatePhase::SettingUpPersistentState => (
                StatePhase::ExecutingInit,
                StateAction::ExecInit,
            ),
            StatePhase::ExecutingInit => (StatePhase::Finished, StateAction::Done),
            _ => (StatePhase::Finished, StateAction::Fail(StateError::UnexpectedOutcome)),
        }
    }

    /// Takes the outcome of the last action and names the next one.
    ///
    /// The state is removed or moved only once the hooks that precede a reset have
    /// succeeded.
    pub fn next(&mut self, event: StateEvent) -> (action: StateAction)
        ensures
            old(self).follows(event, *final(self), action),
            (final(self).phase, action) == old(self).step(event),
            opt_view(final(self).backup) == old(self).next_backup(event),
            action is RemoveProfile || action is MoveProfile ==> old(self).phase is PreReset
                && event is Done,
    {
        let has_backup = self.backup.is_some();
        let (phase, action) = match (self.phase, event) {
            (StatePhase::FindingDataPartition, StateEvent::NotFound) => (
                StatePhase::Finished,
                StateAction::Fail(StateError::NoDataPartition),
            ),
            (StatePhase::MountingData, StateEvent::Failed) => (
                StatePhase::CreatingMountErrorDir,
                StateAction::CreateMountErrorDir,
            ),
            (StatePhase::LoadingConfig, StateEvent::Config { overlay }) => match overlay {
                Some(OverlayConfig::Disabled) => (
                    StatePhase::CheckingDeferredReboot,
                    StateAction::CheckDeferredReboot,
                ),
                _ => (StatePhase::CreatingSystemMountPoint, StateAction::CreateSystemMountPoint),
            },
            (StatePhase::ProbingReset, StateEvent::Reset(requested)) => if requested {
                (StatePhase::ReadingFlag, StateAction::ReadResetFlag)
            } else {
                (StatePhase::CreatingProfile, StateAction::CreateProfile)
            },
            (StatePhase::ReadingFlag, StateEvent::Flag(flag)) => {
                self.backup = resolve_backup(&flag);
                (StatePhase::LoadingResetHooks, StateAction::LoadResetHooks)
            },
            (phase, StateEvent::Done) => Self::advance(phase, has_backup),
            (phase, StateEvent::Failed) => if Self::tolerates(phase) {
                Self::advance(phase, has_backup)
            } else {
                (StatePhase::Finished, StateAction::Fail(StateError::ActionFailed))
            },
            _ => (StatePhase::Finished, StateAction::Fail(StateError::UnexpectedOutcome)),
        };
        self.phase = phase;
        action
    }
}

/// A data partition that cannot be mounted does not keep the system from booting: the
/// setup goes on as it would otherwise, once the failure is written down.
pub proof fn law_failed_data_mount_is_survived(setup: StateSetup)
    requires
        setup.phase is MountingData,
    ensures
        ({
            let recorded = setup.step(StateEvent::Failed);
            &&& recorded.1 is CreateMountErrorDir
            &&& after(recorded.0, setup.backup is Some).1 is WriteMountError
            &&& after(after(recorded.0, setup.backup is Some).0, setup.backup is Some)
                == setup.step(StateEvent::Done)
            &&& tolerates_failure(recorded.0)
            &&& tolerates_failure(after(recorded.0, setup.backup is Some).0)
        }),
{
}

/// What the check for a deferred reboot wants done next.
#[derive(Debug, Clone, Copy, PartialEq, Eq, Structural)]
pub enum DeferredAction {
    /// Find out whether the flag is set.
    ProbeFlag,
    /// Clear the flag.
    ClearFlag,
    /// Synchronize the filesystems.
    Sync,
    /// Find out whether the system needs a commit.
    QueryCommit,
    /// Find the group that is not booted by default.
    FindSpare,
    /// Tell the boot flow to try a group next.
    SetTryNext { group: usize },
    /// Reboot.
    Reboot,
    /// There is nothing more to do.
    Done,
    /// The check failed.
    Fail,
}

/// Outcome of an action.
#[derive(Debug, Clone, Copy, PartialEq, Eq, Structural)]
pub enum DeferredEvent {
    Done,
    Failed,
    /// Whether the flag is set.
    Flag(bool),
    /// Whether the system needs a commit.
    NeedsCommit(bool),
    /// The group that is not booted by default, if there is one.
    Spare(Option<usize>),
}

/// Progress of the check.
#[derive(Debug, Clone, Copy, PartialEq, Eq, Structural)]
pub enum DeferredPhase {
    Probing,
    Clearing,
    Syncing,
    QueryingCommit,
    FindingSpare,
    SettingNext,
    Rebooting,
    Finished,
}

/// The step that follows an outcome of the check for a deferred reboot.
pub open spec fn deferred_step(phase: DeferredPhase, event: DeferredEvent) -> (
    DeferredPhase,
    DeferredAction,
) {
    match (phase, event) {
        (DeferredPhase::Probing, DeferredEvent::Flag(set)) => if set {
            (DeferredPhase::Clearing, DeferredAction::ClearFlag)
        } else {
            (DeferredPhase::Finished, DeferredAction::Done)
        },
        (DeferredPhase::Clearing, DeferredEvent::Done) => (
            DeferredPhase::Syncing,
            DeferredAction::Sync,
        ),
        (DeferredPhase::Syncing, DeferredEvent::Done) => (
            DeferredPhase::QueryingCommit,
            DeferredAction::QueryCommit,
        ),
        (DeferredPhase::QueryingCommit, DeferredEvent::NeedsCommit(needed)) => if needed {
            (DeferredPhase::Finished, DeferredAction::Done)
        } else {
            (DeferredPhase::FindingSpare, DeferredAction::FindSpare)
        },
        (DeferredPhase::FindingSpare, DeferredEvent::Spare(spare)) => match spare {
            Some(group) => (DeferredPhase::SettingNext, DeferredAction::SetTryNext { group }),
            None => (DeferredPhase::Finished, DeferredAction::Done),
        },
        (DeferredPhase::SettingNext, DeferredEvent::Done) => (
            DeferredPhase::Rebooting,
            DeferredAction::Reboot,
        ),
        (DeferredPhase::Rebooting, DeferredEvent::Done) => (
            DeferredPhase::Finished,
            DeferredAction::Done,
        ),
        _ => (DeferredPhase::Finished, DeferredAction::Fail),
    }
}

/// The check for a deferred reboot.
#[derive(Debug, Clone, Copy)]
pub struct DeferredReboot {
    pub phase: DeferredPhase,
}

impl DeferredReboot {
    /// Begins the check.
    pub fn check_deferred_spare_reboot() -> (r: (DeferredReboot, DeferredAction))
        ensures
            r.0.phase == DeferredPhase::Probing,
            r.1 == DeferredAction::ProbeFlag,
    {
        (DeferredReboot { phase: DeferredPhase::Probing }, DeferredAction::ProbeFlag)
    }

    /// Takes the outcome of the last action and names the next one.
    ///
    /// The flag is cleared, and that is synchronized to the disk, before anything else
    /// happens: a deferred reboot is tried once.
    pub fn next(&mut self, event: DeferredEvent) -> (action: DeferredAction)
        ensures
            (final(self).phase, action) == deferred_step(old(self).phase, event),
            action is SetTryNext ==> old(self).phase is FindingSpare,
            action is Reboot ==> old(self).phase is SettingNext && event is Done,
    {
        let (phase, action) = match (self.phase, event) {
            (DeferredPhase::Probing, DeferredEvent::Flag(set)) => if set {
                (DeferredPhase::Clearing, DeferredAction::ClearFlag)
            } else {
                (DeferredPhase::Finished, DeferredAction::Done)
            },
            (DeferredPhase::Clearing, DeferredEvent::Done) => (
                DeferredPhase::Syncing,
                DeferredAction::Sync,
            ),
            (DeferredPhase::Syncing, DeferredEvent::Done) => (
                DeferredPhase::QueryingCommit,
                DeferredAction::QueryCommit,
            ),
            (DeferredPhase::QueryingCommit, DeferredEvent::NeedsCommit(needed)) => if needed {
                (DeferredPhase::Finished, DeferredAction::Done)
            } else {
                (DeferredPhase::FindingSpare, DeferredAction::FindSpare)
            },
            (DeferredPhase::FindingSpare, DeferredEvent::Spare(spare)) => match spare {
                Some(group) => (DeferredPhase::SettingNext, DeferredAction::SetTryNext { group }),
                None => (DeferredPhase::Finished, DeferredAction::Done),
            },
            (DeferredPhase::SettingNext, DeferredEvent::Done) => (
                DeferredPhase::Rebooting,
                DeferredAction::Reboot,
            ),
            (DeferredPhase::Rebooting, DeferredEvent::Done) => (
                DeferredPhase::Finished,
                DeferredAction::Done,
            ),
            _ => (DeferredPhase::Finished, DeferredAction::Fail),
        };
        self.phase = phase;
        action
    }
}

/// A reset keeps the state, under the name of the flag, exactly where the flag holds more
/// than white space.
pub proof fn law_blank_flag_keeps_no_backup(flag: Option<Seq<char>>)
    ensures
        backup_profile(flag) is Some <==> flag is Some && trimmed(flag->0).len() > 0,
        backup_profile(flag) matches Some(profile) ==> profile == path_join(
            "/run/rugix/mounts/data/state/"@,
            flag->0,
        ),
{
}

} // verus!

//! Wiping the data partition.

use vstd::prelude::*;
use crate::cli::DataCommand;
use crate::path::{join, path_join};

verus! {

/// What a wipe wants done next.
#[derive(Debug, Clone, Copy, PartialEq, Eq, Structural)]
pub enum WipeAction {
    /// Take the lock that keeps updates apart.
    LockUpdate,
    /// Warn that all state is lost.
    WarnDestructive,
    /// Find the config partition.
    FindConfigPartition,
    /// Make the config partition writable until the marker is written.
    MakeWritable,
    /// Create the directory of the marker.
    CreateDirectory,
    /// Write the marker. The partition is wiped on the next boot, before it is mounted.
    WriteMarker,
    /// Reboot.
    Reboot,
    /// The partition will be wiped.
    Done,
    /// The wipe is refused.
    Fail(WipeError),
}

/// Why a wipe is refused.
#[derive(Debug, Clone, Copy, PartialEq, Eq, Structural)]
pub enum WipeError {
    /// `--yes` required.
    NotConfirmed,
    /// Config partition is required.
    NoConfigPartition,
    /// The last action failed.
    ActionFailed,
}

/// Outcome of an action.
#[derive(Debug, Clone, Copy, PartialEq, Eq, Structural)]
pub enum WipeEvent {
    Done,
    Failed,
    /// There is no config partition.
    NotFound,
}

/// Progress of a wipe.
#[derive(Debug, Clone, Copy, PartialEq, Eq, Structural)]
pub enum WipePhase {
    Locking,
    Warning,
    FindingConfig,
    MakingWritable,
    CreatingDirectory,
    WritingMarker,
    Rebooting,
    Finished,
}

/// A wipe of the data partition. The partition is mounted while the system runs, so only a
/// marker is written for the next boot.
#[derive(Debug)]
pub struct DataWipe {
    pub phase: WipePhase,
    pub confirmed: bool,
    pub no_reboot: bool,
}

/// Where the marker is.
pub fn wipe_marker(config_path: &str) -> (r: String)
    ensures
        r@ == path_join(path_join(config_path@, ".rugix"@), "wipe-data"@),
{
    join(join(config_path, ".rugix").as_str(), "wipe-data")
}

impl DataWipe {
    /// The step that follows an outcome.
    pub open spec fn step(self, event: WipeEvent) -> (WipePhase, WipeAction) {
        match (self.phase, event) {
            (WipePhase::Locking, WipeEvent::Done) => if self.confirmed {
                (WipePhase::FindingConfig, WipeAction::FindConfigPartition)
            } else {
                (WipePhase::Warning, WipeAction::WarnDestructive)
            },
            (WipePhase::Warning, WipeEvent::Done) => (
                WipePhase::Finished,
                WipeAction::Fail(WipeError::NotConfirmed),
            ),
            (WipePhase::FindingConfig, WipeEvent::Done) => (
                WipePhase::MakingWritable,
                WipeAction::MakeWritable,
            ),
            (WipePhase::FindingConfig, WipeEvent::NotFound) => (
                WipePhase::Finished,
                WipeAction::Fail(WipeError::NoConfigPartition),
            ),
            (WipePhase::MakingWritable, WipeEvent::Done) => (
                WipePhase::CreatingDirectory,
                WipeAction::CreateDirectory,
            ),
            (WipePhase::CreatingDirectory, WipeEvent::Done) => (
                WipePhase::WritingMarker,
                WipeAction::WriteMarker,
            ),
            (WipePhase::WritingMarker, WipeEvent::Done) => if self.no_reboot {
                (WipePhase::Finished, WipeAction::Done)
            } else {
                (WipePhase::Rebooting, WipeAction::Reboot)
            },
            (WipePhase::Rebooting, WipeEvent::Done) => (WipePhase::Finished, WipeAction::Done),
            _ => (WipePhase::Finished, WipeAction::Fail(WipeError::ActionFailed)),
        }
    }

    /// Once it is not confirmed, no step leads to the marker.
    pub open spec fn wf(self) -> bool {
        !self.confirmed ==> match self.phase {
            WipePhase::Locking => true,
            WipePhase::Warning => true,
            WipePhase::Finished => true,
            _ => false,
        }
    }

    /// Begins a wipe.
    pub fn run_data_wipe(command: DataCommand) -> (r: (DataWipe, WipeAction))
        ensures
            r.0.wf(),
            r.0.phase == WipePhase::Locking,
            r.1 == WipeAction::LockUpdate,
            command == (DataCommand::Wipe { yes: r.0.confirmed, no_reboot: r.0.no_reboot }),
    {
        match command {
            DataCommand::Wipe { yes, no_reboot } => (
                DataWipe { phase: WipePhase::Locking, confirmed: yes, no_reboot },
                WipeAction::LockUpdate,
            ),
        }
    }

    /// Takes the outcome of the last action and names the next one.
    pub fn next(&mut self, event: WipeEvent) -> (action: WipeAction)
        requires
            old(self).wf(),
        ensures
            final(self).wf(),
            (final(self).phase, action) == old(self).step(event),
            final(self).confirmed == old(self).confirmed,
            final(self).no_reboot == old(self).no_reboot,
            action == WipeAction::WriteMarker ==> old(self).confirmed,
    {
        let (phase, action) = match (self.phase, event) {
            (WipePhase::Locking, WipeEvent::Done) => if self.confirmed {
                (WipePhase::FindingConfig, WipeAction::FindConfigPartition)
            } else {
                (WipePhase::Warning, WipeAction::WarnDestructive)
            },
            (WipePhase::Warning, WipeEvent::Done) => (
                WipePhase::Finished,
                WipeAction::Fail(WipeError::NotConfirmed),
            ),
            (WipePhase::FindingConfig, WipeEvent::Done) => (
                WipePhase::MakingWritable,
                WipeAction::MakeWritable,
            ),
            (WipePhase::FindingConfig, WipeEvent::NotFound) => (
                WipePhase::Finished,
                WipeAction::Fail(WipeError::NoConfigPartition),
            ),
            (WipePhase::MakingWritable, WipeEvent::Done) => (
                WipePhase::CreatingDirectory,
                WipeAction::CreateDirectory,
            ),
            (WipePhase::CreatingDirectory, WipeEvent::Done) => (
                WipePhase::WritingMarker,
                WipeAction::WriteMarker,
            ),
            (WipePhase::WritingMarker, WipeEvent::Done) => if self.no_reboot {
                (WipePhase::Finished, WipeAction::Done)
            } else {
                (WipePhase::Rebooting, WipeAction::Reboot)
            },
            (WipePhase::Rebooting, WipeEvent::Done) => (WipePhase::Finished, WipeAction::Done),
            _ => (WipePhase::Finished, WipeAction::Fail(WipeError::ActionFailed)),
        };
        self.phase = phase;
        action
    }
}

/// A wipe that is not confirmed writes no marker and does not reboot, whatever comes of its
/// actions.
pub proof fn law_unconfirmed_wipe_changes_nothing(wipe: DataWipe, event: WipeEvent)
    requires
        wipe.wf(),
        !wipe.confirmed,
    ensures
        ({
            let (phase, action) = wipe.step(event);
            &&& action == WipeAction::WarnDestructive || action is Fail
            &&& DataWipe { phase, ..wipe }.wf()
        }),
{
}

} // verus!

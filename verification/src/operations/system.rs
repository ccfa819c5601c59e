//! Operations concerning the system and its components.

use vstd::prelude::*;
use crate::system::boot_groups::other_group;
use crate::system::System;

verus! {

/// Query the current system state.
#[derive(Debug, Clone, Copy, PartialEq, Eq, Structural)]
pub struct QuerySystem;

/// Check the installed compatibility components.
#[derive(Debug, Clone, Copy, PartialEq, Eq, Structural)]
pub struct CheckComponents;

/// Commit the active system as the default system.
#[derive(Debug, Clone, Copy, PartialEq, Eq, Structural)]
pub struct CommitSystem;

/// Reboot the system.
#[derive(Debug, Clone, Copy, PartialEq, Eq, Structural)]
pub struct RebootSystem {
    /// Whether the spare system is booted.
    pub spare: bool,
}

/// What a commit wants done next.
#[derive(Debug, Clone, Copy, PartialEq, Eq, Structural)]
pub enum CommitAction {
    /// Find out which group is booted by default.
    AskDefault,
    /// Load the `system-commit` hooks.
    LoadHooks,
    /// Run the `pre-commit` hooks.
    RunPreCommit,
    /// Tell the boot flow to boot the active group by default.
    Commit,
    /// Run the `post-commit` hooks.
    RunPostCommit,
    /// The active group is the default.
    Done,
    /// The commit failed.
    Fail,
}

/// Outcome of an action.
#[derive(Debug, Clone, Copy, PartialEq, Eq, Structural)]
pub enum CommitEvent {
    /// The group that is booted by default.
    Default(usize),
    Done,
    Failed,
}

/// Progress of a commit.
#[derive(Debug, Clone, Copy, PartialEq, Eq, Structural)]
pub enum CommitPhase {
    AskingDefault,
    LoadingHooks,
    PreCommitting,
    Committing,
    PostCommitting,
    Finished,
}

/// A commit. Where the active group is the default already, nothing is done and no hooks
/// are run.
#[derive(Debug)]
pub struct Commit {
    pub phase: CommitPhase,
}

impl Commit {
    /// The step that follows an outcome.
    pub open spec fn step(self, active: Option<usize>, event: CommitEvent) -> (
        CommitPhase,
        CommitAction,
    ) {
        match (self.phase, event) {
            (CommitPhase::AskingDefault, CommitEvent::Default(group)) => if active == Some(group) {
                (CommitPhase::Finished, CommitAction::Done)
            } else {
                (CommitPhase::LoadingHooks, CommitAction::LoadHooks)
            },
            (CommitPhase::LoadingHooks, CommitEvent::Done) => (
                CommitPhase::PreCommitting,
                CommitAction::RunPreCommit,
            ),
            (CommitPhase::PreCommitting, CommitEvent::Done) => (
                CommitPhase::Committing,
                CommitAction::Commit,
            ),
            (CommitPhase::Committing, CommitEvent::Done) => (
                CommitPhase::PostCommitting,
                CommitAction::RunPostCommit,
            ),
            (CommitPhase::PostCommitting, CommitEvent::Done) => (
                CommitPhase::Finished,
                CommitAction::Done,
            ),
            _ => (CommitPhase::Finished, CommitAction::Fail),
        }
    }

    /// Begins a commit.
    pub fn commit_system() -> (r: (Commit, CommitAction))
        ensures
            r.0.phase == CommitPhase::AskingDefault,
            r.1 == CommitAction::AskDefault,
    {
        (Commit { phase: CommitPhase::AskingDefault }, CommitAction::AskDefault)
    }

    /// Takes the outcome of the last action and names the next one.
    pub fn next(&mut self, system: &System, event: CommitEvent) -> (action: CommitAction)
        ensures
            (final(self).phase, action) == old(self).step(system.active_boot_entry, event),
    {
        let (phase, action) = match (self.phase, event) {
            (CommitPhase::AskingDefault, CommitEvent::Default(group)) => if system.needs_commit(
                group,
            ) {
                (CommitPhase::LoadingHooks, CommitAction::LoadHooks)
            } else {
                (CommitPhase::Finished, CommitAction::Done)
            },
            (CommitPhase::LoadingHooks, CommitEvent::Done) => (
                CommitPhase::PreCommitting,
                CommitAction::RunPreCommit,
            ),
            (CommitPhase::PreCommitting, CommitEvent::Done) => (
                CommitPhase::Committing,
                CommitAction::Commit,
            ),
            (CommitPhase::Committing, CommitEvent::Done) => (
                CommitPhase::PostCommitting,
                CommitAction::RunPostCommit,
            ),
            (CommitPhase::PostCommitting, CommitEvent::Done) => (
                CommitPhase::Finished,
                CommitAction::Done,
            ),
            _ => (CommitPhase::Finished, CommitAction::Fail),
        };
        self.phase = phase;
        action
    }
}

/// A failed `pre-commit` hook keeps the system from being committed, and a group that is
/// the default already is not committed again.
pub proof fn law_commit_follows_its_hooks(commit: Commit, active: Option<usize>, event: CommitEvent)
    requires
        commit.step(active, event).1 == CommitAction::Commit,
    ensures
        commit.phase == CommitPhase::PreCommitting,
        event == CommitEvent::Done,
        forall|group: usize|
            active == Some(group) ==> (#[trigger] (Commit {
                phase: CommitPhase::AskingDefault,
            }).step(active, CommitEvent::Default(group))).1 == CommitAction::Done,
{
}

/// What a reboot wants done next.
#[derive(Debug, Clone, Copy, PartialEq, Eq, Structural)]
pub enum RebootAction {
    /// Find out which group is booted by default.
    AskDefault,
    /// Tell the boot flow to try a group next.
    SetTryNext { group: usize },
    /// Reboot by the boot flow.
    Reboot,
    /// The reboot is on its way.
    Done,
    /// The reboot failed.
    Fail,
}

/// Progress of a reboot.
#[derive(Debug, Clone, Copy, PartialEq, Eq, Structural)]
pub enum RebootPhase {
    AskingDefault,
    SettingNext,
    Rebooting,
    Finished,
}

/// A reboot.
#[derive(Debug)]
pub struct Reboot {
    pub phase: RebootPhase,
}

impl RebootSystem {
    /// Begins a reboot. The boot flow is asked for the default group only where the spare
    /// system is wanted.
    pub fn reboot_system(self) -> (r: (Reboot, RebootAction))
        ensures
            (r.0.phase, r.1) == if self.spare {
                (RebootPhase::AskingDefault, RebootAction::AskDefault)
            } else {
                (RebootPhase::Rebooting, RebootAction::Reboot)
            },
    {
        if self.spare {
            (Reboot { phase: RebootPhase::AskingDefault }, RebootAction::AskDefault)
        } else {
            (Reboot { phase: RebootPhase::Rebooting }, RebootAction::Reboot)
        }
    }
}

impl Reboot {
    /// The step that follows an outcome. The spare group is the first one that is not the
    /// default; where there is none, the system is rebooted as it is.
    pub open spec fn step(self, groups: nat, event: CommitEvent) -> (RebootPhase, RebootAction) {
        match (self.phase, event) {
            (RebootPhase::AskingDefault, CommitEvent::Default(default)) => match other_group(
                groups,
                default as nat,
                0,
            ) {
                Some(group) => (RebootPhase::SettingNext, RebootAction::SetTryNext { group }),
                None => (RebootPhase::Rebooting, RebootAction::Reboot),
            },
            (RebootPhase::SettingNext, CommitEvent::Done) => (
                RebootPhase::Rebooting,
                RebootAction::Reboot,
            ),
            (RebootPhase::Rebooting, CommitEvent::Done) => (
                RebootPhase::Finished,
                RebootAction::Done,
            ),
            _ => (RebootPhase::Finished, RebootAction::Fail),
        }
    }

    /// Takes the outcome of the last action and names the next one.
    pub fn next(&mut self, system: &System, event: CommitEvent) -> (action: RebootAction)
        ensures
            (final(self).phase, action) == old(self).step(
                system.boot_entries.groups@.len(),
                event,
            ),
    {
        let (phase, action) = match (self.phase, event) {
            (RebootPhase::AskingDefault, CommitEvent::Default(default)) => match system.spare_entry(
                default,
            ) {
                Some(group) => (RebootPhase::SettingNext, RebootAction::SetTryNext { group }),
                None => (RebootPhase::Rebooting, RebootAction::Reboot),
            },
            (RebootPhase::SettingNext, CommitEvent::Done) => (
                RebootPhase::Rebooting,
                RebootAction::Reboot,
            ),
            (RebootPhase::Rebooting, CommitEvent::Done) => (
                RebootPhase::Finished,
                RebootAction::Done,
            ),
            _ => (RebootPhase::Finished, RebootAction::Fail),
        };
        self.phase = phase;
        action
    }
}

} // verus!

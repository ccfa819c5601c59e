//! Transitions between the generations of an application.
//!
//! A transition is a machine. It names one action at a time, the program
//! performs it and reports whether it succeeded, and the machine names the next
//! one until it is done. What is to be recovered after a crash is persisted
//! before anything is changed.

use vstd::prelude::*;
use crate::text::{concat, decimal, to_decimal};

verus! {

/// Persisted state of an application.
#[allow(inconsistent_fields)]
#[derive(Debug)]
pub enum AppState {
    /// No generation is active.
    Inactive,
    /// The generation is active.
    Active { generation: u64 },
    /// The workload of the generation is being started.
    Starting { generation: u64 },
    /// The workload of the generation is being stopped.
    Stopping { generation: u64 },
    /// A switch between generations is in progress.
    Switching { from: Option<u64>, to: Option<u64>, recovery: Option<bool> },
    /// A switch failed and could not be rolled back.
    Error { from: Option<u64>, to: u64, message: String },
}

/// The state that a transition persists, before an error text is rendered.
#[allow(inconsistent_fields)]
#[derive(Debug, Clone, Copy)]
pub enum Record {
    Inactive,
    Active { generation: u64 },
    Starting { generation: u64 },
    Stopping { generation: u64 },
    Switching { from: Option<u64>, to: Option<u64>, recovery: bool },
    /// Activating `to` failed, and so did the rollback to `from`.
    RollbackFailed { from: u64, to: u64 },
    /// Activating `to` failed and there was nothing to roll back to.
    ActivationFailed { from: Option<u64>, to: u64 },
}

/// The text of the state that is persisted after a failed rollback.
pub open spec fn rollback_failed_text(generation: nat) -> Seq<char> {
    "activation failed and rollback to generation "@ + decimal(generation) + " also failed"@
}

/// The text of the state that is persisted after a failed activation.
pub open spec fn activation_failed_text(error: Seq<char>) -> Seq<char> {
    "activation failed: "@ + error
}

impl Record {
    /// Whether `state` is what this record persists, given the rendered error.
    pub open spec fn persists(self, error: Seq<char>, state: AppState) -> bool {
        match self {
            Record::Inactive => state is Inactive,
            Record::Active { generation } => state == (AppState::Active { generation }),
            Record::Starting { generation } => state == (AppState::Starting { generation }),
            Record::Stopping { generation } => state == (AppState::Stopping { generation }),
            Record::Switching { from, to, recovery } => state == (AppState::Switching {
                from,
                to,
                recovery: Some(recovery),
            }),
            Record::RollbackFailed { from, to } => {
                &&& state matches AppState::Error { from: f, to: t, message }
                &&& f == Some(from)
                &&& t == to
                &&& message@ == rollback_failed_text(from as nat)
            },
            Record::ActivationFailed { from, to } => {
                &&& state matches AppState::Error { from: f, to: t, message }
                &&& f == from
                &&& t == to
                &&& message@ == activation_failed_text(error)
            },
        }
    }

    /// The state to persist. `error` is the rendered error of the failed
    /// activation.
    pub fn state(self, error: &str) -> (r: AppState)
        ensures
            self.persists(error@, r),
    {
        match self {
            Record::Inactive => AppState::Inactive,
            Record::Active { generation } => AppState::Active { generation },
            Record::Starting { generation } => AppState::Starting { generation },
            Record::Stopping { generation } => AppState::Stopping { generation },
            Record::Switching { from, to, recovery } => AppState::Switching {
                from,
                to,
                recovery: Some(recovery),
            },
            Record::RollbackFailed { from, to } => {
                let number = to_decimal(from);
                let start = concat(
                    "activation failed and rollback to generation ",
                    number.as_str(),
                );
                let message = concat(start.as_str(), " also failed");
                AppState::Error { from: Some(from), to, message }
            },
            Record::ActivationFailed { from, to } => {
                let message = concat("activation failed: ", error);
                AppState::Error { from, to, message }
            },
        }
    }
}

/// The currently active generation of a persisted state, if any.
pub open spec fn active_generation(state: AppState) -> Option<u64> {
    match state {
        AppState::Active { generation } => Some(generation),
        AppState::Starting { generation } => Some(generation),
        AppState::Stopping { generation } => Some(generation),
        _ => None,
    }
}

/// The step whose failure a transition reports.
#[derive(Debug, Clone, Copy, PartialEq, Eq, Structural)]
pub enum FailedStep {
    /// Persisting the state.
    Record,
    /// Deactivating the old generation.
    Deactivate,
    /// Activating the new generation (not the rollback).
    Activate,
    /// Starting or stopping the workload.
    Workload,
}

/// What a transition wants done next.
#[derive(Debug, Clone, Copy)]
pub enum Action {
    /// Persist the state of the application.
    Write { record: Record },
    /// Run the deactivation of a generation.
    Deactivate { generation: u64, recovery: bool },
    /// Run the activation of a generation.
    Activate { generation: u64, recovery: bool },
    /// Start the workload of a generation.
    Start { generation: u64, recovery: bool },
    /// Stop the workload of a generation.
    Stop { generation: u64, recovery: bool },
    /// Find out whether a generation is present and complete.
    CheckComplete { generation: u64 },
    /// The transition is over.
    Finish { failed: Option<FailedStep> },
}

/// Progress of a switch.
#[derive(Debug, Clone, Copy)]
pub enum SwitchPhase {
    Announcing,
    Deactivating,
    Retiring,
    Activating,
    CleaningUp,
    CheckingPrevious,
    RollingBack,
    RecordingRollbackFailure,
    RecordingFailure,
    Finished,
}

/// A switch: deactivate `from`, if set, then activate `to`, if set.
///
/// A failed activation is rolled back to `from`. When that fails too, or when
/// there is nothing to roll back to, the application enters the error state.
#[derive(Debug, Clone, Copy)]
pub struct Switch {
    pub from: Option<u64>,
    pub to: Option<u64>,
    pub recovery: bool,
    pub phase: SwitchPhase,
}

impl Switch {
    /// What a phase presupposes: an activation has a target, a rollback a source.
    pub open spec fn wf(self) -> bool {
        match self.phase {
            SwitchPhase::Announcing => true,
            SwitchPhase::Finished => true,
            SwitchPhase::Deactivating => self.from is Some,
            SwitchPhase::Retiring => self.to is None,
            SwitchPhase::Activating => self.to is Some,
            SwitchPhase::CleaningUp => self.to is Some,
            SwitchPhase::CheckingPrevious => self.to is Some && self.from is Some,
            SwitchPhase::RollingBack => self.to is Some && self.from is Some,
            SwitchPhase::RecordingRollbackFailure => self.to is Some && self.from is Some,
            SwitchPhase::RecordingFailure => self.to is Some,
        }
    }

    /// The number of actions that are at most still to come.
    pub open spec fn rank(self) -> nat {
        match self.phase {
            SwitchPhase::Announcing => 8,
            SwitchPhase::Deactivating => 7,
            SwitchPhase::Activating => 6,
            SwitchPhase::CleaningUp => 5,
            SwitchPhase::CheckingPrevious => 4,
            SwitchPhase::RollingBack => 3,
            SwitchPhase::Retiring => 1,
            SwitchPhase::RecordingRollbackFailure => 1,
            SwitchPhase::RecordingFailure => 1,
            SwitchPhase::Finished => 0,
        }
    }

    /// This switch in another phase.
    pub open spec fn at(self, phase: SwitchPhase) -> Switch {
        Switch { phase, ..self }
    }

    /// The step after the old generation is out of the way.
    pub open spec fn enter(self) -> (Switch, Action) {
        match self.to {
            None => (self.at(SwitchPhase::Retiring), Action::Write { record: Record::Inactive }),
            Some(generation) => (
                self.at(SwitchPhase::Activating),
                Action::Activate { generation, recovery: self.recovery },
            ),
        }
    }

    /// The step that records a failure without a rollback.
    pub open spec fn give_up(self) -> (Switch, Action) {
        (
            self.at(SwitchPhase::RecordingFailure),
            Action::Write {
                record: Record::ActivationFailed { from: self.from, to: self.to->0 },
            },
        )
    }

    /// The end of the switch.
    pub open spec fn end(self, failed: Option<FailedStep>) -> (Switch, Action) {
        (self.at(SwitchPhase::Finished), Action::Finish { failed })
    }

    /// The switch after the outcome of its last action, and its next action.
    pub open spec fn step(self, ok: bool) -> (Switch, Action) {
        match self.phase {
            SwitchPhase::Announcing => if !ok {
                self.end(Some(FailedStep::Record))
            } else if self.from is Some {
                (
                    self.at(SwitchPhase::Deactivating),
                    Action::Deactivate { generation: self.from->0, recovery: self.recovery },
                )
            } else {
                self.enter()
            },
            SwitchPhase::Deactivating => if !ok && self.to is None {
                self.end(Some(FailedStep::Deactivate))
            } else {
                self.enter()
            },
            SwitchPhase::Retiring => if ok {
                self.end(None)
            } else {
                self.end(Some(FailedStep::Record))
            },
            SwitchPhase::Activating => if ok {
                self.end(None)
            } else {
                (
                    self.at(SwitchPhase::CleaningUp),
                    Action::Deactivate { generation: self.to->0, recovery: true },
                )
            },
            SwitchPhase::CleaningUp => match self.from {
                Some(generation) => (
                    self.at(SwitchPhase::CheckingPrevious),
                    Action::CheckComplete { generation },
                ),
                None => self.give_up(),
            },
            SwitchPhase::CheckingPrevious => if ok {
                (
                    self.at(SwitchPhase::RollingBack),
                    Action::Activate { generation: self.from->0, recovery: true },
                )
            } else {
                self.give_up()
            },
            SwitchPhase::RollingBack => if ok {
                self.end(None)
            } else {
                (
                    self.at(SwitchPhase::RecordingRollbackFailure),
                    Action::Write {
                        record: Record::RollbackFailed { from: self.from->0, to: self.to->0 },
                    },
                )
            },
            SwitchPhase::RecordingRollbackFailure => if ok {
                self.end(Some(FailedStep::Activate))
            } else {
                self.end(Some(FailedStep::Record))
            },
            SwitchPhase::RecordingFailure => if ok {
                self.end(Some(FailedStep::Activate))
            } else {
                self.end(Some(FailedStep::Record))
            },
            SwitchPhase::Finished => (self, Action::Finish { failed: None }),
        }
    }

    /// Begins a switch. The first action persists what is about to happen.
    pub fn begin(from: Option<u64>, to: Option<u64>, recovery: bool) -> (r: (Switch, Action))
        ensures
            r.0 == (Switch { from, to, recovery, phase: SwitchPhase::Announcing }),
            r.1 == (Action::Write { record: Record::Switching { from, to, recovery } }),
            r.0.wf(),
    {
        let switch = Switch { from, to, recovery, phase: SwitchPhase::Announcing };
        (switch, Action::Write { record: Record::Switching { from, to, recovery } })
    }

    fn entered(self) -> (r: (Switch, Action))
        ensures
            r == self.enter(),
            r.0.wf(),
    {
        match self.to {
            None => (
                Switch { phase: SwitchPhase::Retiring, ..self },
                Action::Write { record: Record::Inactive },
            ),
            Some(generation) => (
                Switch { phase: SwitchPhase::Activating, ..self },
                Action::Activate { generation, recovery: self.recovery },
            ),
        }
    }

    fn given_up(self, to: u64) -> (r: (Switch, Action))
        requires
            self.to == Some(to),
        ensures
            r == self.give_up(),
            r.0.wf(),
    {
        (
            Switch { phase: SwitchPhase::RecordingFailure, ..self },
            Action::Write { record: Record::ActivationFailed { from: self.from, to } },
        )
    }

    fn ended(self, failed: Option<FailedStep>) -> (r: (Switch, Action))
        ensures
            r == self.end(failed),
            r.0.wf(),
    {
        (Switch { phase: SwitchPhase::Finished, ..self }, Action::Finish { failed })
    }

    /// Takes the outcome of the last action and names the next one.
    pub fn next(self, ok: bool) -> (r: (Switch, Action))
        requires
            self.wf(),
        ensures
            r == self.step(ok),
            r.0.wf(),
            self.phase !is Finished ==> r.0.rank() < self.rank(),
            r.1 is Finish == r.0.phase is Finished,
    {
        match self.phase {
            SwitchPhase::Announcing => {
                if !ok {
                    return self.ended(Some(FailedStep::Record));
                }
                match self.from {
                    Some(generation) => (
                        Switch { phase: SwitchPhase::Deactivating, ..self },
                        Action::Deactivate { generation, recovery: self.recovery },
                    ),
                    None => self.entered(),
                }
            },
            SwitchPhase::Deactivating => {
                if !ok && self.to.is_none() {
                    return self.ended(Some(FailedStep::Deactivate));
                }
                self.entered()
            },
            SwitchPhase::Retiring => if ok {
                self.ended(None)
            } else {
                self.ended(Some(FailedStep::Record))
            },
            SwitchPhase::Activating => {
                if ok {
                    return self.ended(None);
                }
                let generation: u64 = self.to.unwrap();
                (
                    Switch { phase: SwitchPhase::CleaningUp, ..self },
                    Action::Deactivate { generation, recovery: true },
                )
            },
            SwitchPhase::CleaningUp => match self.from {
                Some(generation) => (
                    Switch { phase: SwitchPhase::CheckingPrevious, ..self },
                    Action::CheckComplete { generation },
                ),
                None => self.given_up(self.to.unwrap()),
            },
            SwitchPhase::CheckingPrevious => {
                if !ok {
                    return self.given_up(self.to.unwrap());
                }
                let generation: u64 = self.from.unwrap();
                (
                    Switch { phase: SwitchPhase::RollingBack, ..self },
                    Action::Activate { generation, recovery: true },
                )
            },
            SwitchPhase::RollingBack => {
                if ok {
                    return self.ended(None);
                }
                let from: u64 = self.from.unwrap();
                let to: u64 = self.to.unwrap();
                (
                    Switch { phase: SwitchPhase::RecordingRollbackFailure, ..self },
                    Action::Write { record: Record::RollbackFailed { from, to } },
                )
            },
            SwitchPhase::RecordingRollbackFailure => if ok {
                self.ended(Some(FailedStep::Activate))
            } else {
                self.ended(Some(FailedStep::Record))
            },
            SwitchPhase::RecordingFailure => if ok {
                self.ended(Some(FailedStep::Activate))
            } else {
                self.ended(Some(FailedStep::Record))
            },
            SwitchPhase::Finished => (self, Action::Finish { failed: None }),
        }
    }

    /// The switch and its last action after the given outcomes.
    pub open spec fn run(self, action: Action, outcomes: Seq<bool>) -> (Switch, Action)
        decreases outcomes.len(),
    {
        if outcomes.len() == 0 {
            (self, action)
        } else {
            let (before, _) = self.run(action, outcomes.drop_last());
            before.step(outcomes.last())
        }
    }
}

/// A switch whose every action succeeds ends without a failure: the target, if
/// there is one, was activated by the last action before the end, and otherwise
/// the application was recorded as inactive.
pub proof fn law_switch_without_failures(from: Option<u64>, to: Option<u64>, recovery: bool)
    ensures
        ({
            let start = Switch { from, to, recovery, phase: SwitchPhase::Announcing };
            let first = Action::Write { record: Record::Switching { from, to, recovery } };
            let n: nat = if from is Some { 2 } else { 1 };
            let outcomes = Seq::new(n, |i: int| true);
            let last = start.run(first, outcomes).1;
            &&& to is Some ==> last == (Action::Activate { generation: to->0, recovery })
            &&& to is None ==> last == (Action::Write { record: Record::Inactive })
            &&& start.run(first, outcomes.push(true)).1 == (Action::Finish { failed: None })
        }),
{
    let start = Switch { from, to, recovery, phase: SwitchPhase::Announcing };
    let first = Action::Write { record: Record::Switching { from, to, recovery } };
    let n: nat = if from is Some { 2 } else { 1 };
    let outcomes = Seq::new(n, |i: int| true);
    reveal_with_fuel(Switch::run, 4);
    assert(outcomes.push(true).drop_last() =~= outcomes);
    if from is Some {
        assert(outcomes.drop_last().drop_last() =~= Seq::empty());
    } else {
        assert(outcomes.drop_last() =~= Seq::empty());
    }
}

/// A failed activation is rolled back: when the new generation cannot be
/// activated and the previous one is complete, the previous one is activated
/// again, and when that succeeds the switch ends without a failure.
pub proof fn law_failed_activation_is_rolled_back(switch: Switch, cleaned_up: bool)
    requires
        switch.phase is Activating,
        switch.from is Some,
        switch.to is Some,
    ensures
        ({
            let first = Action::Activate { generation: switch.to->0, recovery: switch.recovery };
            let failed = seq![false, cleaned_up, true];
            &&& switch.run(first, failed).1 == (Action::Activate {
                generation: switch.from->0,
                recovery: true,
            })
            &&& switch.run(first, failed.push(true)).1 == (Action::Finish { failed: None })
            &&& switch.run(first, failed.push(false)).1 == (Action::Write {
                record: Record::RollbackFailed { from: switch.from->0, to: switch.to->0 },
            })
            &&& switch.run(first, failed.push(false).push(true)).1 == (Action::Finish {
                failed: Some(FailedStep::Activate),
            })
        }),
{
    let failed = seq![false, cleaned_up, true];
    reveal_with_fuel(Switch::run, 6);
    assert(failed.push(true).drop_last() =~= failed);
    assert(failed.push(false).drop_last() =~= failed);
    assert(failed.push(false).push(true).drop_last() =~= failed.push(false));
    assert(failed.drop_last() =~= seq![false, cleaned_up]);
    assert(seq![false, cleaned_up].drop_last() =~= seq![false]);
    assert(seq![false].drop_last() =~= Seq::empty());
}

/// A switch ends: after as many outcomes as its rank it is finished, whatever
/// the outcomes are.
pub proof fn law_switch_ends(switch: Switch, action: Action, outcomes: Seq<bool>)
    requires
        switch.wf(),
        outcomes.len() >= switch.rank(),
    ensures
        switch.run(action, outcomes).0.phase is Finished,
    decreases outcomes.len(),
{
    lemma_switch_rank(switch, action, outcomes);
}

proof fn lemma_switch_rank(switch: Switch, action: Action, outcomes: Seq<bool>)
    requires
        switch.wf(),
    ensures
        ({
            let after = switch.run(action, outcomes).0;
            after.wf() && (after.phase is Finished || after.rank() + outcomes.len()
                <= switch.rank())
        }),
    decreases outcomes.len(),
{
    if outcomes.len() > 0 {
        lemma_switch_rank(switch, action, outcomes.drop_last());
    }
}

/// Progress of starting or stopping a workload.
#[derive(Debug, Clone, Copy)]
pub enum WorkloadPhase {
    Announcing,
    Running,
    Recording,
    Finished,
}

/// Starting or stopping the workload of an active generation.
///
/// The state says so while it happens, and says that the generation is active
/// again afterwards, whatever the outcome.
#[derive(Debug, Clone, Copy)]
pub struct Workload {
    pub generation: u64,
    pub start: bool,
    pub recovery: bool,
    pub failed: bool,
    pub phase: WorkloadPhase,
}

impl Workload {
    /// The action that starts or stops the workload.
    pub open spec fn operation(self) -> Action {
        if self.start {
            Action::Start { generation: self.generation, recovery: self.recovery }
        } else {
            Action::Stop { generation: self.generation, recovery: self.recovery }
        }
    }

    /// The machine after the outcome of its last action, and its next action.
    pub open spec fn step(self, ok: bool) -> (Workload, Action) {
        match self.phase {
            WorkloadPhase::Announcing => if ok {
                (Workload { phase: WorkloadPhase::Running, ..self }, self.operation())
            } else {
                (
                    Workload { phase: WorkloadPhase::Finished, ..self },
                    Action::Finish { failed: Some(FailedStep::Record) },
                )
            },
            WorkloadPhase::Running => (
                Workload { phase: WorkloadPhase::Recording, failed: !ok, ..self },
                Action::Write { record: Record::Active { generation: self.generation } },
            ),
            WorkloadPhase::Recording => (
                Workload { phase: WorkloadPhase::Finished, ..self },
                Action::Finish {
                    failed: if !ok {
                        Some(FailedStep::Record)
                    } else if self.failed && !self.recovery {
                        Some(FailedStep::Workload)
                    } else {
                        None
                    },
                },
            ),
            WorkloadPhase::Finished => (self, Action::Finish { failed: None }),
        }
    }

    /// Starts (or stops) the workload of the generation that `state` says is
    /// active; only then.
    pub fn begin(state: &AppState, start: bool) -> (r: Option<(Workload, Action)>)
        ensures
            r is Some == state is Active,
            r matches Some((workload, action)) ==> {
                let generation = state->Active_generation;
                &&& workload == (Workload {
                    generation,
                    start,
                    recovery: false,
                    failed: false,
                    phase: WorkloadPhase::Announcing,
                })
                &&& action == (Action::Write {
                    record: if start {
                        Record::Starting { generation }
                    } else {
                        Record::Stopping { generation }
                    },
                })
            },
    {
        match state {
            AppState::Active { generation } => {
                let generation: u64 = *generation;
                let workload = Workload {
                    generation,
                    start,
                    recovery: false,
                    failed: false,
                    phase: WorkloadPhase::Announcing,
                };
                let record = if start {
                    Record::Starting { generation }
                } else {
                    Record::Stopping { generation }
                };
                Some((workload, Action::Write { record }))
            },
            _ => None,
        }
    }

    /// Resumes an interrupted start or stop: the operation is repeated, and its
    /// failure is not reported.
    pub fn resume(generation: u64, start: bool) -> (r: (Workload, Action))
        ensures
            r.0 == (Workload {
                generation,
                start,
                recovery: true,
                failed: false,
                phase: WorkloadPhase::Running,
            }),
            r.1 == r.0.operation(),
    {
        let workload = Workload {
            generation,
            start,
            recovery: true,
            failed: false,
            phase: WorkloadPhase::Running,
        };
        if start {
            (workload, Action::Start { generation, recovery: true })
        } else {
            (workload, Action::Stop { generation, recovery: true })
        }
    }

    /// Takes the outcome of the last action and names the next one.
    pub fn next(self, ok: bool) -> (r: (Workload, Action))
        ensures
            r == self.step(ok),
    {
        match self.phase {
            WorkloadPhase::Announcing => {
                if !ok {
                    return (
                        Workload { phase: WorkloadPhase::Finished, ..self },
                        Action::Finish { failed: Some(FailedStep::Record) },
                    );
                }
                let action = if self.start {
                    Action::Start { generation: self.generation, recovery: self.recovery }
                } else {
                    Action::Stop { generation: self.generation, recovery: self.recovery }
                };
                (Workload { phase: WorkloadPhase::Running, ..self }, action)
            },
            WorkloadPhase::Running => (
                Workload { phase: WorkloadPhase::Recording, failed: !ok, ..self },
                Action::Write { record: Record::Active { generation: self.generation } },
            ),
            WorkloadPhase::Recording => {
                let failed = if !ok {
                    Some(FailedStep::Record)
                } else if self.failed && !self.recovery {
                    Some(FailedStep::Workload)
                } else {
                    None
                };
                (Workload { phase: WorkloadPhase::Finished, ..self }, Action::Finish { failed })
            },
            WorkloadPhase::Finished => (self, Action::Finish { failed: None }),
        }
    }
}

/// Once the operation ran, the generation is recorded as active, whatever came of
/// the operation.
pub proof fn law_workload_returns_to_active(workload: Workload, ok: bool)
    requires
        workload.phase is Running,
    ensures
        workload.step(ok).1 == (Action::Write {
            record: Record::Active { generation: workload.generation },
        }),
{
}

/// Progress of recovering an application from its error state.
#[derive(Debug, Clone, Copy)]
pub enum ErrorPhase {
    /// The generation that worked before is being activated.
    Target,
    /// The generation that failed is being activated.
    Fallback,
    Finished,
}

/// A recovery of an application.
#[derive(Debug, Clone, Copy)]
pub enum Recovery {
    /// There is nothing to recover.
    Nothing,
    /// The interrupted switch is repeated.
    Switching { switch: Switch },
    /// The interrupted start or stop is repeated.
    Working { workload: Workload },
    /// The generation that worked before is activated, or else the failed one.
    Erroneous { from: Option<u64>, to: u64, phase: ErrorPhase },
}

impl Recovery {
    pub open spec fn wf(self) -> bool {
        self matches Recovery::Switching { switch } ==> switch.wf()
    }

    /// The recovery that a persisted state asks for, and its first action.
    pub open spec fn of(state: AppState) -> (Recovery, Action) {
        match state {
            AppState::Switching { from, to, .. } => (
                Recovery::Switching {
                    switch: Switch { from, to, recovery: true, phase: SwitchPhase::Announcing },
                },
                Action::Write { record: Record::Switching { from, to, recovery: true } },
            ),
            AppState::Starting { generation } => (
                Recovery::Working {
                    workload: Workload {
                        generation,
                        start: true,
                        recovery: true,
                        failed: false,
                        phase: WorkloadPhase::Running,
                    },
                },
                Action::Start { generation, recovery: true },
            ),
            AppState::Stopping { generation } => (
                Recovery::Working {
                    workload: Workload {
                        generation,
                        start: false,
                        recovery: true,
                        failed: false,
                        phase: WorkloadPhase::Running,
                    },
                },
                Action::Stop { generation, recovery: true },
            ),
            AppState::Error { from, to, .. } => (
                Recovery::Erroneous { from, to, phase: ErrorPhase::Target },
                Action::Activate {
                    generation: match from {
                        Some(generation) => generation,
                        None => to,
                    },
                    recovery: true,
                },
            ),
            AppState::Inactive => (Recovery::Nothing, Action::Finish { failed: None }),
            AppState::Active { .. } => (Recovery::Nothing, Action::Finish { failed: None }),
        }
    }

    /// The recovery after the outcome of its last action, and its next action.
    pub open spec fn step(self, ok: bool) -> (Recovery, Action) {
        match self {
            Recovery::Nothing => (self, Action::Finish { failed: None }),
            Recovery::Switching { switch } => (
                Recovery::Switching { switch: switch.step(ok).0 },
                switch.step(ok).1,
            ),
            Recovery::Working { workload } => (
                Recovery::Working { workload: workload.step(ok).0 },
                workload.step(ok).1,
            ),
            Recovery::Erroneous { from, to, phase } => if !ok && phase is Target && from is Some {
                (
                    Recovery::Erroneous { from, to, phase: ErrorPhase::Fallback },
                    Action::Activate { generation: to, recovery: true },
                )
            } else {
                (
                    Recovery::Erroneous { from, to, phase: ErrorPhase::Finished },
                    Action::Finish { failed: None },
                )
            },
        }
    }

    /// Begins the recovery of an application from its persisted state.
    pub fn begin(state: &AppState) -> (r: (Recovery, Action))
        ensures
            r == Recovery::of(*state),
            r.0.wf(),
    {
        match state {
            AppState::Switching { from, to, .. } => {
                let (switch, action) = Switch::begin(*from, *to, true);
                (Recovery::Switching { switch }, action)
            },
            AppState::Starting { generation } => {
                let (workload, action) = Workload::resume(*generation, true);
                (Recovery::Working { workload }, action)
            },
            AppState::Stopping { generation } => {
                let (workload, action) = Workload::resume(*generation, false);
                (Recovery::Working { workload }, action)
            },
            AppState::Error { from, to, .. } => {
                let generation: u64 = match from {
                    Some(generation) => *generation,
                    None => *to,
                };
                (
                    Recovery::Erroneous { from: *from, to: *to, phase: ErrorPhase::Target },
                    Action::Activate { generation, recovery: true },
                )
            },
            AppState::Inactive => (Recovery::Nothing, Action::Finish { failed: None }),
            AppState::Active { .. } => (Recovery::Nothing, Action::Finish { failed: None }),
        }
    }

    /// Takes the outcome of the last action and names the next one.
    pub fn next(self, ok: bool) -> (r: (Recovery, Action))
        requires
            self.wf(),
        ensures
            r == self.step(ok),
            r.0.wf(),
    {
        match self {
            Recovery::Nothing => (self, Action::Finish { failed: None }),
            Recovery::Switching { switch } => {
                let (switch, action) = switch.next(ok);
                (Recovery::Switching { switch }, action)
            },
            Recovery::Working { workload } => {
                let (workload, action) = workload.next(ok);
                (Recovery::Working { workload }, action)
            },
            Recovery::Erroneous { from, to, phase } => {
                let target = match phase {
                    ErrorPhase::Target => true,
                    _ => false,
                };
                if !ok && target && from.is_some() {
                    return (
                        Recovery::Erroneous { from, to, phase: ErrorPhase::Fallback },
                        Action::Activate { generation: to, recovery: true },
                    );
                }
                (
                    Recovery::Erroneous { from, to, phase: ErrorPhase::Finished },
                    Action::Finish { failed: None },
                )
            },
        }
    }
}

/// A recovery is begun again where it was interrupted: the state that an
/// interrupted switch leaves behind asks for the same switch.
pub proof fn law_interrupted_switch_is_recovered(
    from: Option<u64>,
    to: Option<u64>,
    recovery: bool,
    error: Seq<char>,
    state: AppState,
)
    requires
        (Record::Switching { from, to, recovery }).persists(error, state),
    ensures
        Recovery::of(state).0 == (Recovery::Switching {
            switch: Switch { from, to, recovery: true, phase: SwitchPhase::Announcing },
        }),
{
}

/// A settled application is left alone.
pub proof fn law_settled_state_needs_no_recovery(state: AppState)
    requires
        state is Inactive || state is Active,
    ensures
        Recovery::of(state) == (Recovery::Nothing, Action::Finish { failed: None }),
{
}

/// A generation counts as active while it is, and while its workload is started or stopped;
/// none does while generations are switched or after that failed.
pub proof fn law_generation_is_active_while_it_is_worked(state: AppState, generation: u64)
    ensures
        active_generation(state) == Some(generation) <==> {
            ||| state == AppState::Active { generation }
            ||| state == AppState::Starting { generation }
            ||| state == AppState::Stopping { generation }
        },
{
}

} // verus!

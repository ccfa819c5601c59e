//! What every run of a transition between generations satisfies.

use vstd::prelude::*;
use crate::apps::lifecycle::{
    Action, AppState, FailedStep, Record, Recovery, Switch, SwitchPhase, Workload,
    WorkloadPhase,
};
use crate::apps::manager::{activate_steps, orchestrate_steps, Operation, RunStep};
use crate::run::Run;

verus! {

/// A run of a switch. An outcome says whether the action succeeded.
pub type SwitchRun = Run<Switch, Action, bool>;

/// The record of a switch that is in progress.
pub open spec fn announcement(from: Option<u64>, to: Option<u64>, recovery: bool) -> Action {
    Action::Write { record: Record::Switching { from, to, recovery } }
}

/// Whether these are the states, actions and outcomes of a switch from its beginning.
pub open spec fn is_switch_run(
    run: SwitchRun,
    from: Option<u64>,
    to: Option<u64>,
    recovery: bool,
) -> bool {
    &&& run.wf()
    &&& run.states[0] == (Switch { from, to, recovery, phase: SwitchPhase::Announcing })
    &&& run.actions[0] == announcement(from, to, recovery)
    &&& forall|i: int| #[trigger]
        run.has(i) ==> (run.states[i + 1], run.actions[i + 1]) == run.states[i].step(run.events[i])
}

spec fn awaits(switch: Switch, action: Action) -> bool {
    match switch.phase {
        SwitchPhase::Announcing => action == announcement(switch.from, switch.to, switch.recovery),
        SwitchPhase::Deactivating => switch.from is Some && action == (Action::Deactivate {
            generation: switch.from->0,
            recovery: switch.recovery,
        }),
        SwitchPhase::Retiring => switch.to is None && action == (Action::Write {
            record: Record::Inactive,
        }),
        SwitchPhase::Activating => switch.to is Some && action == (Action::Activate {
            generation: switch.to->0,
            recovery: switch.recovery,
        }),
        SwitchPhase::CleaningUp => switch.to is Some && action == (Action::Deactivate {
            generation: switch.to->0,
            recovery: true,
        }),
        SwitchPhase::CheckingPrevious => switch.from is Some && switch.to is Some && action == (
        Action::CheckComplete { generation: switch.from->0 }),
        SwitchPhase::RollingBack => switch.from is Some && switch.to is Some && action == (
        Action::Activate { generation: switch.from->0, recovery: true }),
        SwitchPhase::RecordingRollbackFailure => switch.from is Some && switch.to is Some && action
            == (Action::Write {
            record: Record::RollbackFailed { from: switch.from->0, to: switch.to->0 },
        }),
        SwitchPhase::RecordingFailure => switch.to is Some && action == (Action::Write {
            record: Record::ActivationFailed { from: switch.from, to: switch.to->0 },
        }),
        SwitchPhase::Finished => action is Finish,
    }
}

proof fn lemma_awaits(
    run: SwitchRun,
    from: Option<u64>,
    to: Option<u64>,
    recovery: bool,
    i: int,
)
    requires
        is_switch_run(run, from, to, recovery),
        0 <= i < run.actions.len(),
    ensures
        awaits(run.states[i], run.actions[i]),
        run.states[i].from == from,
        run.states[i].to == to,
        run.states[i].recovery == recovery,
    decreases i,
{
    if i > 0 {
        assert(run.has(i - 1));
        lemma_awaits(run, from, to, recovery, i - 1);
    }
}

/// A switch first deactivates the generation that it starts from, where there is one, and
/// then activates the one that it leads to, where there is one. Without one the application
/// is recorded as inactive, and only after its generation was deactivated. Nothing else is
/// activated or deactivated, but for what a failed activation leads to.
pub proof fn law_switch_replaces_the_generation(
    run: SwitchRun,
    from: Option<u64>,
    to: Option<u64>,
    recovery: bool,
    i: int,
)
    requires
        is_switch_run(run, from, to, recovery),
        run.has(i),
    ensures
        ({
            let before = run.actions[i];
            let ok = run.events[i];
            let after = run.actions[i + 1];
            let announced = before == announcement(from, to, recovery) && ok;
            let retire = Action::Deactivate { generation: from->0, recovery };
            let enter = Action::Activate { generation: to->0, recovery };
            let clean = Action::Deactivate { generation: to->0, recovery: true };
            let restore = Action::Activate { generation: from->0, recovery: true };
            // The generation that the switch starts from is always deactivated first.
            &&& announced && from is Some ==> after == retire
            &&& announced && from is None && to is Some ==> after == enter
            &&& after is Deactivate ==> ({
                ||| from is Some && after == retire && announced
                ||| to is Some && after == clean && before == enter && !ok
            })
            &&& after is Activate ==> ({
                ||| to is Some && after == enter && (if from is Some {
                    before == retire
                } else {
                    announced
                })
                ||| from is Some && to is Some && after == restore && before == (
                Action::CheckComplete { generation: from->0 }) && ok
            })
            &&& after == (Action::Write { record: Record::Inactive }) ==> to is None && (
            if from is Some {
                before == retire && ok
            } else {
                announced
            })
            &&& !(after is Start) && !(after is Stop)
        }),
{
    lemma_awaits(run, from, to, recovery, i);
    lemma_awaits(run, from, to, recovery, i + 1);
}

/// A failed activation is cleaned up, and then the generation that the switch started from is
/// activated again where it is complete. Where it is not, or where there is none, or where
/// that fails too, the failure is recorded.
pub proof fn law_failed_switch_is_recorded(
    run: SwitchRun,
    from: Option<u64>,
    to: Option<u64>,
    recovery: bool,
    i: int,
)
    requires
        is_switch_run(run, from, to, recovery),
        run.has(i),
    ensures
        ({
            let before = run.actions[i];
            let ok = run.events[i];
            let after = run.actions[i + 1];
            let clean = Action::Deactivate { generation: to->0, recovery: true };
            let check = Action::CheckComplete { generation: from->0 };
            let restore = Action::Activate { generation: from->0, recovery: true };
            &&& after is CheckComplete ==> from is Some && to is Some && after == check && before
                == clean
            &&& before is CheckComplete && ok ==> after == restore
            &&& before is CheckComplete && !ok ==> after == (Action::Write {
                record: Record::ActivationFailed { from, to: to->0 },
            })
            &&& after matches Action::Write { record: Record::ActivationFailed { from: f, to: t } }
                ==> f == from && to == Some(t) && (if from is Some {
                before == check && !ok
            } else {
                before == clean
            })
            &&& after matches Action::Write { record: Record::RollbackFailed { from: f, to: t } }
                ==> from == Some(f) && to == Some(t) && before == restore && !ok
            &&& after matches Action::Write { record } ==> record is Inactive
                || record is ActivationFailed || record is RollbackFailed
        }),
{
    lemma_awaits(run, from, to, recovery, i);
    lemma_awaits(run, from, to, recovery, i + 1);
}

/// A switch ends well only where a generation was activated or the application was recorded
/// as inactive. Otherwise it ends with the step that failed: a record that could not be
/// persisted, a generation that could not be deactivated though nothing replaces it, or an
/// activation whose failure was recorded.
pub proof fn law_switch_ends_as_it_went(
    run: SwitchRun,
    from: Option<u64>,
    to: Option<u64>,
    recovery: bool,
    i: int,
)
    requires
        is_switch_run(run, from, to, recovery),
        run.has(i),
        !(run.actions[i] is Finish),
    ensures
        ({
            let before = run.actions[i];
            let ok = run.events[i];
            let after = run.actions[i + 1];
            &&& before is Write && !ok ==> after == (Action::Finish {
                failed: Some(FailedStep::Record),
            })
            &&& before is Activate && ok ==> after == (Action::Finish { failed: None })
            &&& after matches Action::Finish { failed } ==> match failed {
                None => ok && (before is Activate || before == (Action::Write {
                    record: Record::Inactive,
                })),
                Some(FailedStep::Record) => before is Write && !ok,
                Some(FailedStep::Deactivate) => to is None && from is Some && before == (
                Action::Deactivate { generation: from->0, recovery }) && !ok,
                Some(FailedStep::Activate) => ok && ({
                    ||| before == Action::Write {
                        record: Record::RollbackFailed { from: from->0, to: to->0 },
                    }
                    ||| before == Action::Write {
                        record: Record::ActivationFailed { from, to: to->0 },
                    }
                }),
                Some(FailedStep::Workload) => false,
            }
        }),
{
    lemma_awaits(run, from, to, recovery, i);
    lemma_awaits(run, from, to, recovery, i + 1);
}

/// The course of a switch: what is recorded is followed by the deactivation, that by the
/// activation, and a failed activation by its clean-up and by a look at the generation that
/// the switch started from.
pub proof fn law_switch_takes_its_course(
    run: SwitchRun,
    from: Option<u64>,
    to: Option<u64>,
    recovery: bool,
)
    requires
        is_switch_run(run, from, to, recovery),
        run.has(0),
        run.events[0],
    ensures
        ({
            let retire = Action::Deactivate { generation: from->0, recovery };
            let enter = Action::Activate { generation: to->0, recovery };
            let clean = Action::Deactivate { generation: to->0, recovery: true };
            let end = if to is Some {
                enter
            } else {
                Action::Write { record: Record::Inactive }
            };
            let failure = Action::Write {
                record: Record::ActivationFailed { from, to: to->0 },
            };
            &&& from is None ==> {
                &&& run.actions[1] == end
                &&& to is Some && run.has(1) && !run.events[1] ==> run.actions[2] == clean
                &&& to is Some && run.has(2) && !run.events[1] ==> run.actions[3] == failure
            }
            &&& from is Some ==> {
                &&& run.actions[1] == retire
                &&& run.has(1) && (to is Some || run.events[1]) ==> run.actions[2] == end
                &&& to is Some && run.has(2) && !run.events[2] ==> run.actions[3] == clean
                &&& to is Some && run.has(3) && !run.events[2] ==> run.actions[4] == (
                Action::CheckComplete { generation: from->0 })
                &&& to is Some && run.has(4) && !run.events[2] ==> run.actions[5]
                    == if run.events[4] {
                    Action::Activate { generation: from->0, recovery: true }
                } else {
                    failure
                }
                &&& to is Some && run.has(5) && !run.events[2] && run.events[4]
                    && !run.events[5] ==> run.actions[6] == (Action::Write {
                    record: Record::RollbackFailed { from: from->0, to: to->0 },
                })
            }
        }),
{
    if run.has(1) {
        if run.has(2) {
            if run.has(3) {
                if run.has(4) {
                    assert(run.has(5) || !run.has(5));
                }
            }
        }
    }
}

/// A run of starting or stopping a workload.
pub type WorkloadRun = Run<Workload, Action, bool>;

/// The action that starts or stops the workload of a generation.
pub open spec fn work(generation: u64, start: bool, recovery: bool) -> Action {
    if start {
        Action::Start { generation, recovery }
    } else {
        Action::Stop { generation, recovery }
    }
}

/// The record that says so while it happens.
pub open spec fn working(generation: u64, start: bool) -> Action {
    Action::Write {
        record: if start {
            Record::Starting { generation }
        } else {
            Record::Stopping { generation }
        },
    }
}

/// Whether these are the states, actions and outcomes from the beginning. An interrupted
/// operation is repeated without announcing it again.
pub open spec fn is_workload_run(
    run: WorkloadRun,
    generation: u64,
    start: bool,
    resumed: bool,
) -> bool {
    &&& run.wf()
    &&& run.states[0] == (Workload {
        generation,
        start,
        recovery: resumed,
        failed: false,
        phase: if resumed {
            WorkloadPhase::Running
        } else {
            WorkloadPhase::Announcing
        },
    })
    &&& run.actions[0] == if resumed {
        run.states[0].operation()
    } else {
        working(generation, start)
    }
    &&& forall|i: int| #[trigger]
        run.has(i) ==> (run.states[i + 1], run.actions[i + 1]) == run.states[i].step(run.events[i])
}

proof fn lemma_workload(
    run: WorkloadRun,
    generation: u64,
    start: bool,
    resumed: bool,
    i: int,
)
    requires
        is_workload_run(run, generation, start, resumed),
        0 <= i < run.actions.len(),
    ensures
        run.states[i].generation == generation,
        run.states[i].start == start,
        run.states[i].recovery == resumed,
        match run.states[i].phase {
            WorkloadPhase::Announcing => !resumed && run.actions[i] == working(generation, start),
            WorkloadPhase::Running => run.actions[i] == work(generation, start, resumed),
            WorkloadPhase::Recording => i > 0 && run.states[i - 1].phase is Running
                && run.states[i].failed == !run.events[i - 1] && run.actions[i] == (Action::Write {
                record: Record::Active { generation },
            }),
            WorkloadPhase::Finished => run.actions[i] is Finish,
        },
    decreases i,
{
    if i > 0 {
        assert(run.has(i - 1));
        lemma_workload(run, generation, start, resumed, i - 1);
    }
}

/// A workload is started or stopped once that is recorded, and afterwards the generation is
/// recorded as active, whatever came of it. A failure is reported, except of an operation
/// that is repeated.
pub proof fn law_workload_is_worked_once(
    run: WorkloadRun,
    generation: u64,
    start: bool,
    resumed: bool,
    i: int,
)
    requires
        is_workload_run(run, generation, start, resumed),
        run.has(i),
        !(run.actions[i] is Finish),
    ensures
        run.actions[0] == if resumed {
            work(generation, start, true)
        } else {
            working(generation, start)
        },
        ({
            let before = run.actions[i];
            let ok = run.events[i];
            let after = run.actions[i + 1];
            let active = Action::Write { record: Record::Active { generation } };
            &&& before == working(generation, start) && ok ==> after == work(
                generation,
                start,
                false,
            )
            &&& before is Start || before is Stop ==> before == work(generation, start, resumed)
                && after == active
            &&& before is Write && !ok ==> after == (Action::Finish {
                failed: Some(FailedStep::Record),
            })
            &&& before == active && ok ==> i > 0 && after == (Action::Finish {
                failed: if !run.events[i - 1] && !resumed {
                    Some(FailedStep::Workload)
                } else {
                    None
                },
            })
            &&& before is Write || before is Start || before is Stop
        }),
{
    lemma_workload(run, generation, start, resumed, i);
    lemma_workload(run, generation, start, resumed, i + 1);
}

/// What a persisted state asks for: an interrupted switch is repeated from its beginning, an
/// interrupted start or stop is repeated, a settled application is left alone, and in the
/// error state the generation that worked before is activated, or else the one that failed.
pub proof fn law_recovery_takes_up_what_was_interrupted(state: AppState)
    ensures
        ({
            let first = Recovery::of(state).1;
            match state {
                AppState::Inactive => first == (Action::Finish { failed: None }),
                AppState::Active { .. } => first == (Action::Finish { failed: None }),
                AppState::Starting { generation } => first == work(generation, true, true),
                AppState::Stopping { generation } => first == work(generation, false, true),
                AppState::Switching { from, to, .. } => first == announcement(from, to, true),
                AppState::Error { from, to, .. } => first == (Action::Activate {
                    generation: if from is Some {
                        from->0
                    } else {
                        to
                    },
                    recovery: true,
                }),
            }
        }),
{
}

/// In the error state, the generation that failed is tried only where the one that worked
/// before cannot be activated, and a recovery reports no failure.
pub proof fn law_error_state_is_recovered(state: AppState, first: bool, second: bool)
    requires
        state is Error,
    ensures
        ({
            let (begun, _) = Recovery::of(state);
            let (then, action) = begun.step(first);
            let done = Action::Finish { failed: None };
            &&& first || state->Error_from is None ==> action == done
            &&& !first && state->Error_from is Some ==> action == (Action::Activate {
                generation: state->Error_to,
                recovery: true,
            }) && then.step(second).1 == done
        }),
{
}

/// A recovery of an interrupted switch takes the actions of that switch, and one of an
/// interrupted start or stop those of that.
pub proof fn law_recovery_repeats_the_transition(switch: Switch, workload: Workload, ok: bool)
    ensures
        (Recovery::Switching { switch }).step(ok).1 == switch.step(ok).1,
        (Recovery::Switching { switch }).step(ok).0 == (Recovery::Switching {
            switch: switch.step(ok).0,
        }),
        (Recovery::Working { workload }).step(ok).1 == workload.step(ok).1,
        (Recovery::Working { workload }).step(ok).0 == (Recovery::Working {
            workload: workload.step(ok).0,
        }),
{
}

/// An operation on a generation asks the orchestrator that the manifest names, and does so
/// last. An activation then notes its time, and only at its end says that the generation is
/// active.
pub proof fn law_orchestrator_is_asked(operation: Operation, generation: u64)
    ensures
        ({
            let steps = orchestrate_steps(operation);
            &&& steps.len() == 3
            &&& steps[0] is LoadManifest
            &&& steps[1] is SelectOrchestrator
            &&& steps[2] == (RunStep::Orchestrate { operation })
        }),
        ({
            let steps = activate_steps(generation);
            &&& steps.len() == 5
            &&& steps[0] is LoadManifest
            &&& steps[1] is SelectOrchestrator
            &&& steps[2] == (RunStep::Orchestrate { operation: Operation::Activate })
            &&& steps[3] is MarkActivated
            &&& steps[4] == (RunStep::Write { record: Record::Active { generation } })
        }),
{
}

} // verus!

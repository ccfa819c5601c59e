//! What every run of a command satisfies.

use vstd::prelude::*;
use crate::cli::apps::{
    AppCommand, AppCommandRun, CommandAction, CommandError, CommandEvent, CommandPhase,
};
use crate::cli::data::{DataWipe, WipeAction, WipeError, WipeEvent, WipePhase};
use crate::run::Run;

verus! {

/// A run of a command on an application.
pub type CommandRun = Run<AppCommandRun, CommandAction, CommandEvent>;

/// Whether these are the states, actions and outcomes of a command from its beginning.
pub open spec fn is_command_run(run: CommandRun, command: AppCommand, skip_check: bool) -> bool {
    &&& run.wf()
    &&& run.states[0].phase is Locking
    &&& run.states[0].command == command
    &&& run.states[0].skip_compatibility_check == skip_check
    &&& run.actions[0] is Lock
    &&& forall|i: int| #[trigger]
        run.has(i) ==> {
            let before = run.states[i];
            let after = run.states[i + 1];
            &&& (after.phase, run.actions[i + 1]) == before.step(run.events[i])
            &&& after.command == before.command
            &&& after.skip_compatibility_check == before.skip_compatibility_check
        }
}

/// Whether an action is the one that a command asks for.
pub open spec fn performs(action: CommandAction, command: AppCommand) -> bool {
    match command {
        AppCommand::Activate { generation } => action is Activate && (generation is Some ==> action
            == (CommandAction::Activate { generation: generation->0 })),
        AppCommand::Deactivate => action is Deactivate,
        AppCommand::Start => action is Start,
        AppCommand::Stop => action is Stop,
        AppCommand::Rollback => action is Rollback,
        AppCommand::Remove => action is Remove,
    }
}

/// Whether an outcome is one of the action.
pub open spec fn command_fits(action: CommandAction, event: CommandEvent) -> bool {
    match action {
        CommandAction::FindLastActivated => event is Generation,
        CommandAction::FindRollbackTarget => event is Generation,
        CommandAction::ReadCurrent => event is Generation,
        CommandAction::CheckGeneration { .. } => event is Compatible,
        CommandAction::CheckRemoval => event is Compatible,
        CommandAction::Done => false,
        CommandAction::Fail(_) => false,
        _ => event is Done,
    }
}

spec fn awaits_command(run: AppCommandRun, action: CommandAction) -> bool {
    match run.phase {
        CommandPhase::Locking => action is Lock,
        CommandPhase::Finding => {
            ||| action is FindLastActivated && run.command == (AppCommand::Activate {
                generation: None,
            })
            ||| action is FindRollbackTarget && run.command is Rollback
                && !run.skip_compatibility_check
        },
        CommandPhase::ReadingCurrent => action is ReadCurrent && !run.skip_compatibility_check && (
        run.command is Deactivate || run.command is Remove),
        CommandPhase::Checking { generation: Some(generation) } => action == (
        CommandAction::CheckGeneration { generation }) && !run.skip_compatibility_check && (
        run.command is Activate || run.command is Rollback) && (run.command matches
            AppCommand::Activate { generation: Some(g) } ==> g == generation),
        CommandPhase::Checking { generation: None } => action is CheckRemoval
            && !run.skip_compatibility_check && (run.command is Deactivate
            || run.command is Remove),
        CommandPhase::Reporting => action is ReportIncompatible,
        CommandPhase::Performing => performs(action, run.command),
        CommandPhase::Finished => action is Done || action is Fail,
    }
}

proof fn lemma_command(run: CommandRun, command: AppCommand, skip_check: bool, i: int)
    requires
        is_command_run(run, command, skip_check),
        0 <= i < run.actions.len(),
    ensures
        awaits_command(run.states[i], run.actions[i]),
        run.states[i].command == command,
        run.states[i].skip_compatibility_check == skip_check,
    decreases i,
{
    if i > 0 {
        assert(run.has(i - 1));
        lemma_command(run, command, skip_check, i - 1);
    }
}

/// A command locks the application and then does what it asks for, once the components are
/// found to fit together with what is changed, unless that check is skipped.
pub proof fn law_command_does_what_it_asks_for(
    run: CommandRun,
    command: AppCommand,
    skip_check: bool,
    i: int,
)
    requires
        is_command_run(run, command, skip_check),
        run.has(i),
    ensures
        ({
            let before = run.actions[i];
            let event = run.events[i];
            let after = run.actions[i + 1];
            let locked = before is Lock && event is Done;
            let fine = event == CommandEvent::Compatible(true);
            let removable = if skip_check {
                locked
            } else {
                before is CheckRemoval && fine || before is ReadCurrent && event
                    == CommandEvent::Generation(None)
            };
            &&& run.actions[0] is Lock
            &&& match after {
                CommandAction::Lock => false,
                CommandAction::FindLastActivated => locked && command == (AppCommand::Activate {
                    generation: None,
                }),
                CommandAction::FindRollbackTarget => locked && command is Rollback && !skip_check,
                CommandAction::ReadCurrent => locked && !skip_check && (command is Deactivate
                    || command is Remove),
                CommandAction::CheckGeneration { generation } => !skip_check && ({
                    ||| locked && command == (AppCommand::Activate { generation: Some(generation) })
                    ||| (before is FindLastActivated || before is FindRollbackTarget) && event
                        == CommandEvent::Generation(Some(generation))
                }),
                CommandAction::CheckRemoval => before is ReadCurrent && event is Generation && event
                    != CommandEvent::Generation(None),
                CommandAction::ReportIncompatible => (before is CheckGeneration
                    || before is CheckRemoval) && event == CommandEvent::Compatible(false),
                CommandAction::Activate { generation } => command is Activate && if skip_check {
                    ||| locked && command == (AppCommand::Activate { generation: Some(generation) })
                    ||| before is FindLastActivated && event == CommandEvent::Generation(
                        Some(generation),
                    )
                } else {
                    before == (CommandAction::CheckGeneration { generation }) && fine
                },
                CommandAction::Deactivate => command is Deactivate && removable,
                CommandAction::Remove => command is Remove && removable,
                CommandAction::Rollback => command is Rollback && if skip_check {
                    locked
                } else {
                    before is CheckGeneration && fine
                },
                CommandAction::Start => command is Start && locked,
                CommandAction::Stop => command is Stop && locked,
                CommandAction::Done => performs(before, command) && event is Done,
                CommandAction::Fail(CommandError::NeverActivated) => (before is FindLastActivated
                    || before is FindRollbackTarget) && event == CommandEvent::Generation(None),
                CommandAction::Fail(CommandError::Incompatible) => before is ReportIncompatible
                    && event is Done,
                CommandAction::Fail(CommandError::ActionFailed) => !command_fits(before, event),
            }
        }),
{
    lemma_command(run, command, skip_check, i);
    lemma_command(run, command, skip_check, i + 1);
}

/// A run of a wipe.
pub type WipeRun = Run<DataWipe, WipeAction, WipeEvent>;

/// Whether these are the states, actions and outcomes of a wipe from its beginning.
pub open spec fn is_wipe_run(run: WipeRun, confirmed: bool, no_reboot: bool) -> bool {
    &&& run.wf()
    &&& run.states[0].phase is Locking
    &&& run.states[0].confirmed == confirmed
    &&& run.states[0].no_reboot == no_reboot
    &&& run.actions[0] is LockUpdate
    &&& forall|i: int| #[trigger]
        run.has(i) ==> {
            let before = run.states[i];
            let after = run.states[i + 1];
            &&& (after.phase, run.actions[i + 1]) == before.step(run.events[i])
            &&& after.confirmed == before.confirmed
            &&& after.no_reboot == before.no_reboot
        }
}

spec fn awaits_wipe(phase: WipePhase, action: WipeAction) -> bool {
    match phase {
        WipePhase::Locking => action is LockUpdate,
        WipePhase::Warning => action is WarnDestructive,
        WipePhase::FindingConfig => action is FindConfigPartition,
        WipePhase::MakingWritable => action is MakeWritable,
        WipePhase::CreatingDirectory => action is CreateDirectory,
        WipePhase::WritingMarker => action is WriteMarker,
        WipePhase::Rebooting => action is Reboot,
        WipePhase::Finished => action is Done || action is Fail,
    }
}

proof fn lemma_wipe(run: WipeRun, confirmed: bool, no_reboot: bool, i: int)
    requires
        is_wipe_run(run, confirmed, no_reboot),
        0 <= i < run.actions.len(),
    ensures
        awaits_wipe(run.states[i].phase, run.actions[i]),
        run.states[i].confirmed == confirmed,
        run.states[i].no_reboot == no_reboot,
    decreases i,
{
    if i > 0 {
        assert(run.has(i - 1));
        lemma_wipe(run, confirmed, no_reboot, i - 1);
    }
}

/// A wipe is announced by a marker that is written to the config partition, once it is
/// confirmed and while no update is under way. It is made on the next boot, which comes at
/// once unless told otherwise.
pub proof fn law_wipe_is_announced_in_order(
    run: WipeRun,
    confirmed: bool,
    no_reboot: bool,
    i: int,
)
    requires
        is_wipe_run(run, confirmed, no_reboot),
        run.has(i),
    ensures
        ({
            let before = run.actions[i];
            let event = run.events[i];
            let after = run.actions[i + 1];
            &&& run.actions[0] is LockUpdate
            &&& match after {
                WipeAction::LockUpdate => false,
                WipeAction::WarnDestructive => before is LockUpdate && event is Done && !confirmed,
                WipeAction::FindConfigPartition => before is LockUpdate && event is Done
                    && confirmed,
                WipeAction::MakeWritable => before is FindConfigPartition && event is Done,
                WipeAction::CreateDirectory => before is MakeWritable && event is Done,
                WipeAction::WriteMarker => before is CreateDirectory && event is Done,
                WipeAction::Reboot => before is WriteMarker && event is Done && !no_reboot,
                WipeAction::Done => {
                    ||| before is WriteMarker && event is Done && no_reboot
                    ||| before is Reboot && event is Done
                },
                WipeAction::Fail(WipeError::NotConfirmed) => before is WarnDestructive
                    && event is Done,
                WipeAction::Fail(WipeError::NoConfigPartition) => before is FindConfigPartition
                    && event is NotFound,
                WipeAction::Fail(WipeError::ActionFailed) => {
                    ||| event is Failed
                    ||| before is Done || before is Fail
                    ||| event is NotFound && !(before is FindConfigPartition)
                },
            }
        }),
{
    lemma_wipe(run, confirmed, no_reboot, i);
    lemma_wipe(run, confirmed, no_reboot, i + 1);
}

} // verus!

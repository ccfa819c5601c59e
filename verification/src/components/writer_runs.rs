//! What every run of writing the components of a bundle satisfies.

use vstd::prelude::*;
use crate::components::bundle::{
    ComponentWriter, EntryKind, WriteAction, WriteEvent, WritePhase,
};
use crate::run::Run;

verus! {

/// A run of writing components.
pub type WriterRun = Run<ComponentWriter, WriteAction, WriteEvent>;

/// Whether these are the states, actions and outcomes of writing from its beginning.
pub open spec fn is_writer_run(run: WriterRun, order: Seq<usize>) -> bool {
    &&& run.wf()
    &&& run.states[0].wf()
    &&& run.states[0].phase is ProbingParent
    &&& run.states[0].order@ == order
    &&& run.actions[0] is ProbeParent
    &&& forall|i: int| #[trigger]
        run.has(i) ==> {
            let before = run.states[i];
            let after = run.states[i + 1];
            &&& after.wf()
            &&& after.order == before.order
            &&& after.at == before.next_at(run.events[i])
            &&& (after.phase, run.actions[i + 1]) == before.step(run.events[i])
        }
}

/// Whether an outcome is one of the action.
pub open spec fn write_fits(action: WriteAction, event: WriteEvent) -> bool {
    match action {
        WriteAction::ProbeParent => event is Found,
        WriteAction::ProbeRoot => event is Found,
        WriteAction::Done => false,
        WriteAction::Fail => false,
        _ => event is Done,
    }
}

/// The number of files that are written after the first `i` actions.
pub open spec fn written(run: WriterRun, i: int) -> nat
    decreases i,
{
    if i <= 0 {
        0
    } else if run.actions[i - 1] is WriteFile && run.events[i - 1] is Done {
        written(run, i - 1) + 1
    } else {
        written(run, i - 1)
    }
}

spec fn awaits(writer: ComponentWriter, action: WriteAction) -> bool {
    match writer.phase {
        WritePhase::ProbingParent => action is ProbeParent,
        WritePhase::RemovingParent => action is RemoveParent,
        WritePhase::CreatingParent => action is CreateParent,
        WritePhase::ProbingRoot => action is ProbeRoot,
        WritePhase::RemovingRoot => action is RemoveRootTree || action is RemoveRootFile,
        WritePhase::CreatingRoot => action is CreateRoot,
        WritePhase::CreatingFileParent => action == (WriteAction::CreateFileParent {
            file: writer.order@[writer.at as int],
        }),
        WritePhase::WritingFile => action == (WriteAction::WriteFile {
            file: writer.order@[writer.at as int],
        }),
        WritePhase::Finished => action is Done || action is Fail,
    }
}

proof fn lemma_awaits(run: WriterRun, order: Seq<usize>, i: int)
    requires
        is_writer_run(run, order),
        0 <= i < run.actions.len(),
    ensures
        awaits(run.states[i], run.actions[i]),
        run.states[i].wf(),
        run.states[i].order@ == order,
        match run.states[i].phase {
            WritePhase::CreatingFileParent => run.states[i].at == written(run, i),
            WritePhase::WritingFile => run.states[i].at == written(run, i),
            WritePhase::Finished => true,
            _ => written(run, i) == 0,
        },
    decreases i,
{
    if i > 0 {
        assert(run.has(i - 1));
        lemma_awaits(run, order, i - 1);
    }
}

/// A component root is made afresh below a real directory, and then every file is written to
/// it, in the order of the files, each one in its directory.
pub proof fn law_components_are_written_one_by_one(run: WriterRun, order: Seq<usize>, i: int)
    requires
        is_writer_run(run, order),
        run.has(i),
    ensures
        ({
            let before = run.actions[i];
            let event = run.events[i];
            let after = run.actions[i + 1];
            let count = written(run, i + 1);
            let nothing = event == WriteEvent::Found(EntryKind::Nothing);
            let directory = event == WriteEvent::Found(EntryKind::Directory);
            let other = event == WriteEvent::Found(EntryKind::Other);
            let ready = event is Done && (before is CreateRoot || before is WriteFile);
            &&& run.actions[0] is ProbeParent
            &&& match after {
                WriteAction::ProbeParent => false,
                WriteAction::RemoveParent => before is ProbeParent && other,
                WriteAction::CreateParent => before is ProbeParent && nothing
                    || before is RemoveParent && event is Done,
                WriteAction::ProbeRoot => before is ProbeParent && directory
                    || before is CreateParent && event is Done,
                WriteAction::RemoveRootTree => before is ProbeRoot && directory,
                WriteAction::RemoveRootFile => before is ProbeRoot && other,
                WriteAction::CreateRoot => before is ProbeRoot && nothing || (
                before is RemoveRootTree || before is RemoveRootFile) && event is Done,
                WriteAction::CreateFileParent { file } => ready && count < order.len() && file
                    == order[count as int],
                WriteAction::WriteFile { file } => event is Done && before == (
                WriteAction::CreateFileParent { file }),
                WriteAction::Done => ready && count == order.len(),
                WriteAction::Fail => !write_fits(before, event),
            }
        }),
{
    lemma_awaits(run, order, i);
    lemma_awaits(run, order, i + 1);
}

} // verus!

//! What every run of a reset satisfies.

use vstd::prelude::*;
use crate::operations::state::{
    is_backup_name, is_named_at, FactoryReset, Reset, ResetAction, ResetError, ResetPhase,
};
use crate::path::is_contained;
use crate::run::Run;

verus! {

/// A run of a reset. An outcome is whether the action succeeded.
pub type ResetRun = Run<Reset, ResetAction, bool>;

/// Whether these are the states, actions and outcomes of a reset from its beginning.
pub open spec fn is_reset_run(run: ResetRun, request: FactoryReset) -> bool {
    &&& run.wf()
    &&& run.states[0].phase is LoadingHooks
    &&& run.states[0].request == request
    &&& run.actions[0] is LoadHooks
    &&& forall|i: int| #[trigger]
        run.has(i) ==> run.states[i].may_follow(
            run.events[i],
            run.states[i + 1].phase,
            run.actions[i + 1],
        ) && run.states[i + 1].request == run.states[i].request
}

spec fn awaits(phase: ResetPhase, action: ResetAction) -> bool {
    match phase {
        ResetPhase::LoadingHooks => action is LoadHooks,
        ResetPhase::Preparing => action is RunPrepare,
        ResetPhase::CreatingDirectory => action is CreateFlagDirectory,
        ResetPhase::SettingFlag => action is SetFlag,
        ResetPhase::Rebooting => action is Reboot,
        ResetPhase::Finished => action is Done || action is Fail,
    }
}

proof fn lemma_awaits(run: ResetRun, request: FactoryReset, i: int)
    requires
        is_reset_run(run, request),
        0 <= i < run.actions.len(),
    ensures
        awaits(run.states[i].phase, run.actions[i]),
        run.states[i].request == request,
    decreases i,
{
    if i > 0 {
        assert(run.has(i - 1));
        lemma_awaits(run, request, i - 1);
    }
}

/// A reset has its hooks prepare first and only then sets the flag, which holds the name of a
/// backup exactly where one is asked for: the name that is given, or else one after the time.
/// The system is rebooted only with the flag set.
pub proof fn law_reset_is_made_in_order(run: ResetRun, request: FactoryReset, i: int)
    requires
        is_reset_run(run, request),
        run.has(i),
    ensures
        ({
            let before = run.actions[i];
            let ok = run.events[i];
            let after = run.actions[i + 1];
            &&& run.actions[0] is LoadHooks
            &&& match after {
                ResetAction::LoadHooks => false,
                ResetAction::RunPrepare => before is LoadHooks && ok,
                ResetAction::CreateFlagDirectory => before is RunPrepare && ok,
                ResetAction::SetFlag { backup_name } => {
                    &&& before is CreateFlagDirectory && ok
                    &&& backup_name is Some <==> request.backup
                    &&& backup_name matches Some(name) ==> is_backup_name(name@) && match
                        request.backup_name {
                        Some(given) => name@ == given@,
                        None => exists|time: int| is_named_at(name@, time),
                    }
                },
                ResetAction::Reboot => before is SetFlag && ok,
                ResetAction::Done => ok && (before is Reboot || before is Done || before is Fail),
                ResetAction::Fail(ResetError::ActionFailed) => !ok,
                ResetAction::Fail(ResetError::InvalidBackupName) => ok
                    && before is CreateFlagDirectory && request.backup && (
                request.backup_name matches Some(name) && !is_contained(name@)),
                ResetAction::Fail(ResetError::SeveralComponents) => ok
                    && before is CreateFlagDirectory && request.backup && (
                request.backup_name matches Some(name) && is_contained(name@) && !is_backup_name(
                    name@,
                )),
                ResetAction::Fail(ResetError::ClockOutOfRange) => ok
                    && before is CreateFlagDirectory && request.backup && request.backup_name is None,
            }
        }),
{
    lemma_awaits(run, request, i);
    lemma_awaits(run, request, i + 1);
}

} // verus!

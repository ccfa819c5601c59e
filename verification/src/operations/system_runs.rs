//! What every run of a commit and of a reboot satisfies.

use vstd::prelude::*;
use crate::operations::system::{
    Commit, CommitAction, CommitEvent, CommitPhase, Reboot, RebootAction, RebootPhase,
};
use crate::run::Run;

verus! {

/// A run of a commit.
pub type CommitRun = Run<Commit, CommitAction, CommitEvent>;

/// Whether these are the states, actions and outcomes of a commit from its beginning.
pub open spec fn is_commit_run(run: CommitRun, active: Option<usize>) -> bool {
    &&& run.wf()
    &&& run.states[0].phase is AskingDefault
    &&& run.actions[0] is AskDefault
    &&& forall|i: int| #[trigger]
        run.has(i) ==> (run.states[i + 1].phase, run.actions[i + 1]) == run.states[i].step(
            active,
            run.events[i],
        )
}

spec fn awaits_commit(phase: CommitPhase, action: CommitAction) -> bool {
    match phase {
        CommitPhase::AskingDefault => action is AskDefault,
        CommitPhase::LoadingHooks => action is LoadHooks,
        CommitPhase::PreCommitting => action is RunPreCommit,
        CommitPhase::Committing => action is Commit,
        CommitPhase::PostCommitting => action is RunPostCommit,
        CommitPhase::Finished => action is Done || action is Fail,
    }
}

proof fn lemma_commit(run: CommitRun, active: Option<usize>, i: int)
    requires
        is_commit_run(run, active),
        0 <= i < run.actions.len(),
    ensures
        awaits_commit(run.states[i].phase, run.actions[i]),
    decreases i,
{
    if i > 0 {
        assert(run.has(i - 1));
        lemma_commit(run, active, i - 1);
    }
}

/// The active group is made the default where it is not the default yet, and only between the
/// hooks: after the `pre-commit` ones have succeeded, and before the `post-commit` ones. A
/// commit that fails does so because an action failed.
pub proof fn law_commit_is_made_in_order(run: CommitRun, active: Option<usize>, i: int)
    requires
        is_commit_run(run, active),
        run.has(i),
    ensures
        ({
            let before = run.actions[i];
            let event = run.events[i];
            let after = run.actions[i + 1];
            &&& run.actions[0] is AskDefault
            &&& match after {
                CommitAction::AskDefault => false,
                CommitAction::LoadHooks => before is AskDefault && (event matches
                    CommitEvent::Default(group) && active != Some(group)),
                CommitAction::RunPreCommit => before is LoadHooks && event is Done,
                CommitAction::Commit => before is RunPreCommit && event is Done,
                CommitAction::RunPostCommit => before is Commit && event is Done,
                CommitAction::Done => {
                    ||| before is AskDefault && (event matches CommitEvent::Default(group)
                        && active == Some(group))
                    ||| before is RunPostCommit && event is Done
                },
                CommitAction::Fail => before is Done || before is Fail || event is Failed || (
                event is Default <==> !(before is AskDefault)),
            }
        }),
{
    lemma_commit(run, active, i);
    lemma_commit(run, active, i + 1);
}

/// A run of a reboot.
pub type RebootRun = Run<Reboot, RebootAction, CommitEvent>;

/// Whether these are the states, actions and outcomes of a reboot from its beginning.
pub open spec fn is_reboot_run(run: RebootRun, spare: bool, groups: nat) -> bool {
    &&& run.wf()
    &&& (run.states[0].phase, run.actions[0]) == if spare {
        (RebootPhase::AskingDefault, RebootAction::AskDefault)
    } else {
        (RebootPhase::Rebooting, RebootAction::Reboot)
    }
    &&& forall|i: int| #[trigger]
        run.has(i) ==> (run.states[i + 1].phase, run.actions[i + 1]) == run.states[i].step(
            groups,
            run.events[i],
        )
}

spec fn awaits_reboot(phase: RebootPhase, action: RebootAction) -> bool {
    match phase {
        RebootPhase::AskingDefault => action is AskDefault,
        RebootPhase::SettingNext => action is SetTryNext,
        RebootPhase::Rebooting => action is Reboot,
        RebootPhase::Finished => action is Done || action is Fail,
    }
}

proof fn lemma_reboot(run: RebootRun, spare: bool, groups: nat, i: int)
    requires
        is_reboot_run(run, spare, groups),
        0 <= i < run.actions.len(),
    ensures
        awaits_reboot(run.states[i].phase, run.actions[i]),
        !spare ==> !(run.actions[i] is AskDefault) && !(run.actions[i] is SetTryNext),
    decreases i,
{
    if i > 0 {
        assert(run.has(i - 1));
        lemma_reboot(run, spare, groups, i - 1);
    }
}

/// A reboot to the spare system first has the group tried next that is not the default, where
/// there is one; any other reboot leaves the choice of the group alone. Success is reported
/// only once the reboot is on its way.
pub proof fn law_reboot_goes_where_it_should(run: RebootRun, spare: bool, groups: nat, i: int)
    requires
        is_reboot_run(run, spare, groups),
        run.has(i),
        groups <= usize::MAX,
    ensures
        ({
            let before = run.actions[i];
            let event = run.events[i];
            let after = run.actions[i + 1];
            &&& spare <==> run.actions[0] is AskDefault
            &&& !spare <==> run.actions[0] is Reboot
            &&& match after {
                RebootAction::AskDefault => false,
                RebootAction::SetTryNext { group } => spare && before is AskDefault && (
                event matches CommitEvent::Default(default) && group < groups && group != default
                    && (group > 0 ==> group == 1 && default == 0)),
                RebootAction::Reboot => {
                    ||| before is SetTryNext && event is Done
                    ||| before is AskDefault && (event matches CommitEvent::Default(default) && (
                    groups == 0 || groups == 1 && default == 0))
                },
                RebootAction::Done => before is Reboot && event is Done,
                RebootAction::Fail => before is Done || before is Fail || event is Failed || (
                event is Default <==> !(before is AskDefault)),
            }
        }),
{
    lemma_reboot(run, spare, groups, i);
    lemma_reboot(run, spare, groups, i + 1);
}

} // verus!

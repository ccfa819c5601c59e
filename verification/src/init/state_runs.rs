//! What every run of the state setup satisfies.

use vstd::prelude::*;
use crate::init::state_setup::{
    deferred_step, profiles_dir, DeferredAction, DeferredEvent, DeferredPhase, DeferredReboot,
    StateAction, StateError, StateEvent, StatePhase, StateSetup,
};
use crate::path::path_join;
use crate::run::Run;
use crate::state::OverlayConfig;
use crate::text::{opt_view, trimmed};

verus! {

/// A run of the setup.
pub type StateRun = Run<StateSetup, StateAction, StateEvent>;

/// Whether these are the states, actions and outcomes of a setup from its beginning.
pub open spec fn is_state_run(run: StateRun) -> bool {
    &&& run.wf()
    &&& run.states[0].begun()
    &&& run.actions[0] is CreateDataMountPoint
    &&& forall|i: int| #[trigger]
        run.has(i) ==> run.states[i].follows(run.events[i], run.states[i + 1], run.actions[i + 1])
}

/// Whether an outcome is one of the action.
pub open spec fn state_fits(action: StateAction, event: StateEvent) -> bool {
    match action {
        StateAction::Done => false,
        StateAction::Fail(_) => false,
        StateAction::FindDataPartition => event is Done || event is NotFound,
        StateAction::LoadStateConfig => event is Config,
        StateAction::ProbeReset => event is Reset,
        StateAction::ReadResetFlag => event is Flag,
        _ => event is Done,
    }
}

/// Whether the setup goes on though the action failed.
pub open spec fn is_optional(action: StateAction) -> bool {
    ||| action is CreateDataMountPoint
    ||| action is CreateMountErrorDir
    ||| action is WriteMountError
    ||| action is CreateSystemMountPoint
    ||| action is CheckDeferredReboot
    ||| action is RemoveProfile
    ||| action is MoveProfile
    ||| action is RemoveBackupFlag
    ||| action is CreateProfile
    ||| action is CreateStateDir
}

/// Whether the setup goes on after the outcome of an action.
pub open spec fn is_passed(action: StateAction, event: StateEvent) -> bool {
    event is Done || (event is Failed && is_optional(action))
}

/// Whether an action belongs to a reset of the state.
pub open spec fn resets(action: StateAction) -> bool {
    ||| action is ReadResetFlag
    ||| action is LoadResetHooks
    ||| action is RunPreReset
    ||| action is RemoveProfile
    ||| action is MoveProfile
    ||| action is RemoveBackupFlag
    ||| action is RunPostReset
}

/// What the flag that requests a reset holds, where it was read before the action `i`.
pub open spec fn read_flag(events: Seq<StateEvent>, i: int) -> Option<Seq<char>>
    decreases i,
{
    if i <= 0 {
        None
    } else {
        match events[i - 1] {
            StateEvent::Flag(flag) => opt_view(flag),
            _ => read_flag(events, i - 1),
        }
    }
}

/// Whether the flag names a backup of the state.
pub open spec fn names_backup(flag: Option<Seq<char>>) -> bool {
    flag is Some && trimmed(flag->0).len() > 0
}

spec fn awaits(phase: StatePhase, action: StateAction) -> bool {
    match phase {
        StatePhase::CreatingDataMountPoint => action is CreateDataMountPoint,
        StatePhase::FindingDataPartition => action is FindDataPartition,
        StatePhase::MountingData => action is MountData,
        StatePhase::CreatingMountErrorDir => action is CreateMountErrorDir,
        StatePhase::WritingMountError => action is WriteMountError,
        StatePhase::LoadingConfig => action is LoadStateConfig,
        StatePhase::CreatingSystemMountPoint => action is CreateSystemMountPoint,
        StatePhase::MountingSystem => action is MountSystem,
        StatePhase::CheckingDeferredReboot => action is CheckDeferredReboot,
        StatePhase::ProbingReset => action is ProbeReset,
        StatePhase::ReadingFlag => action is ReadResetFlag,
        StatePhase::LoadingResetHooks => action is LoadResetHooks,
        StatePhase::PreReset => action is RunPreReset,
        StatePhase::Resetting { backup } => if backup {
            action is MoveProfile
        } else {
            action is RemoveProfile
        },
        StatePhase::RemovingBackupFlag => action is RemoveBackupFlag,
        StatePhase::PostReset => action is RunPostReset,
        StatePhase::CreatingProfile => action is CreateProfile,
        StatePhase::CreatingStateDir => action is CreateStateDir,
        StatePhase::BindingState => action is BindState,
        StatePhase::SettingUpOverlay => action is SetupOverlay,
        StatePhase::SettingUpPersistentState => action is SetupPersistentState,
        StatePhase::ExecutingInit => action is ExecInit,
        StatePhase::Finished => action is Done || action is Fail,
    }
}

proof fn lemma_awaits(run: StateRun, i: int)
    requires
        is_state_run(run),
        0 <= i < run.actions.len(),
    ensures
        awaits(run.states[i].phase, run.actions[i]),
{
    if i > 0 {
        assert(run.has(i - 1));
    }
}

proof fn lemma_flag(run: StateRun, i: int)
    requires
        is_state_run(run),
        0 <= i < run.actions.len(),
    ensures
        run.states[i].phase is Finished || opt_view(run.states[i].backup) == if names_backup(
            read_flag(run.events, i),
        ) {
            Some(path_join(profiles_dir(), read_flag(run.events, i)->0))
        } else {
            None
        },
    decreases i,
{
    if i > 0 {
        assert(run.has(i - 1));
        lemma_flag(run, i - 1);
    }
}

/// The partitions are mounted in their order: the data partition first, whose failure is
/// written down and survived; then, once the configuration is loaded, the system partition,
/// unless there is no overlay; then a deferred reboot is looked for, and after it a reset.
pub proof fn law_partitions_are_mounted_in_order(run: StateRun, i: int)
    requires
        is_state_run(run),
        run.has(i),
    ensures
        ({
            let before = run.actions[i];
            let event = run.events[i];
            let after = run.actions[i + 1];
            let passed = is_passed(before, event);
            &&& !(after is CreateDataMountPoint)
            &&& after is FindDataPartition ==> before is CreateDataMountPoint && passed
            &&& after is MountData ==> before is FindDataPartition && event is Done
            &&& after is CreateMountErrorDir ==> before is MountData && event is Failed
            &&& after is WriteMountError ==> before is CreateMountErrorDir && passed
            &&& after is LoadStateConfig ==> (before is MountData && event is Done) || (
            before is WriteMountError && passed)
            &&& after is CreateSystemMountPoint ==> before is LoadStateConfig && event is Config
                && event->overlay != Some(OverlayConfig::Disabled)
            &&& after is MountSystem ==> before is CreateSystemMountPoint && passed
            &&& after is CheckDeferredReboot ==> (before is MountSystem && event is Done) || (
            before is LoadStateConfig && event is Config && event->overlay == Some(
                OverlayConfig::Disabled,
            ))
            &&& after is ProbeReset ==> before is CheckDeferredReboot && passed
        }),
{
    lemma_awaits(run, i);
    lemma_awaits(run, i + 1);
}

/// A reset is done in its order: the flag is read, the hooks before it have to succeed, the
/// state is moved to the backup that the flag names, or removed where it names none, and the
/// hooks after it have to succeed.
pub proof fn law_state_is_reset_in_order(run: StateRun, i: int)
    requires
        is_state_run(run),
        run.has(i),
    ensures
        ({
            let before = run.actions[i];
            let event = run.events[i];
            let after = run.actions[i + 1];
            let passed = is_passed(before, event);
            let flag = read_flag(run.events, i + 1);
            &&& after is ReadResetFlag ==> before is ProbeReset && event == StateEvent::Reset(true)
            &&& after is LoadResetHooks ==> before is ReadResetFlag && event is Flag
            &&& after is RunPreReset ==> before is LoadResetHooks && event is Done
            &&& after is RemoveProfile ==> before is RunPreReset && event is Done && !names_backup(
                flag,
            )
            &&& after is MoveProfile ==> before is RunPreReset && event is Done && names_backup(
                flag,
            ) && opt_view(run.states[i + 1].backup) == Some(path_join(profiles_dir(), flag->0))
            &&& after is RemoveBackupFlag ==> before is MoveProfile && passed
            &&& after is RunPostReset ==> (before is RemoveProfile || before is RemoveBackupFlag)
                && passed
            &&& after is CreateProfile ==> (before is ProbeReset && event == StateEvent::Reset(
                false,
            )) || (before is RunPostReset && event is Done)
        }),
{
    lemma_awaits(run, i);
    lemma_awaits(run, i + 1);
    lemma_flag(run, i);
    lemma_flag(run, i + 1);
}

/// The state is reset only on request: nothing of a reset is done, and no state is removed or
/// moved, unless the probe before it found that a reset is requested.
pub proof fn law_state_is_reset_only_on_request(run: StateRun, i: int)
    requires
        is_state_run(run),
        0 <= i < run.actions.len(),
        resets(run.actions[i]),
    ensures
        exists|k: int|
            0 <= k < i && (#[trigger] run.actions[k]) is ProbeReset && run.events[k]
                == StateEvent::Reset(true),
    decreases i,
{
    lemma_awaits(run, i);
    assert(run.has(i - 1));
    lemma_awaits(run, i - 1);
    law_state_is_reset_in_order(run, i - 1);
    if run.actions[i] is ReadResetFlag {
        assert(run.actions[i - 1] is ProbeReset);
    } else {
        law_state_is_reset_only_on_request(run, i - 1);
    }
}

/// The state is put in place in its order, and the init of the system is run only once all of
/// it is: the profile is bound, the overlay and the persistent state are set up.
pub proof fn law_state_is_put_in_place_in_order(run: StateRun, i: int)
    requires
        is_state_run(run),
        run.has(i),
    ensures
        ({
            let before = run.actions[i];
            let event = run.events[i];
            let after = run.actions[i + 1];
            let passed = is_passed(before, event);
            &&& after is CreateStateDir ==> before is CreateProfile && passed
            &&& after is BindState ==> before is CreateStateDir && passed
            &&& after is SetupOverlay ==> before is BindState && event is Done
            &&& after is SetupPersistentState ==> before is SetupOverlay && event is Done
            &&& after is ExecInit ==> before is SetupPersistentState && event is Done
            &&& after is Done ==> before is ExecInit && event is Done
        }),
{
    lemma_awaits(run, i);
    lemma_awaits(run, i + 1);
}

/// The setup fails for a reason, and only for one: there is no data partition, an action
/// failed that it cannot do without, or an outcome is not one of the last action. A data
/// partition that cannot be mounted is no such reason.
pub proof fn law_setup_fails_for_a_reason(run: StateRun, i: int)
    requires
        is_state_run(run),
        run.has(i),
    ensures
        ({
            let before = run.actions[i];
            let event = run.events[i];
            let after = run.actions[i + 1];
            after matches StateAction::Fail(error) ==> match error {
                StateError::NoDataPartition => before is FindDataPartition && event is NotFound,
                StateError::ActionFailed => event is Failed && !is_optional(before) && !(
                before is MountData),
                StateError::UnexpectedOutcome => !state_fits(before, event),
            }
        }),
        run.actions[i] is Done || run.actions[i] is Fail ==> run.actions[i + 1] is Fail,
{
    lemma_awaits(run, i);
    lemma_awaits(run, i + 1);
}

/// A run of the check for a deferred reboot.
pub type DeferredRun = Run<DeferredReboot, DeferredAction, DeferredEvent>;

/// Whether these are the states, actions and outcomes of a check from its beginning.
pub open spec fn is_deferred_run(run: DeferredRun) -> bool {
    &&& run.wf()
    &&& run.states[0].phase is Probing
    &&& run.actions[0] is ProbeFlag
    &&& forall|i: int| #[trigger]
        run.has(i) ==> (run.states[i + 1].phase, run.actions[i + 1]) == deferred_step(
            run.states[i].phase,
            run.events[i],
        )
}

spec fn awaits_deferred(phase: DeferredPhase, action: DeferredAction) -> bool {
    match phase {
        DeferredPhase::Probing => action is ProbeFlag,
        DeferredPhase::Clearing => action is ClearFlag,
        DeferredPhase::Syncing => action is Sync,
        DeferredPhase::QueryingCommit => action is QueryCommit,
        DeferredPhase::FindingSpare => action is FindSpare,
        DeferredPhase::SettingNext => action is SetTryNext,
        DeferredPhase::Rebooting => action is Reboot,
        DeferredPhase::Finished => action is Done || action is Fail,
    }
}

proof fn lemma_awaits_deferred(run: DeferredRun, i: int)
    requires
        is_deferred_run(run),
        0 <= i < run.actions.len(),
    ensures
        awaits_deferred(run.states[i].phase, run.actions[i]),
{
    if i > 0 {
        assert(run.has(i - 1));
    }
}

/// A deferred reboot is tried once, and only on request: the flag is cleared and that is
/// synchronized before anything else; the group that is tried next is the spare one, and only
/// where the system needs no commit; the device is rebooted only once the boot flow knows of
/// the group.
pub proof fn law_deferred_reboot_is_tried_once(run: DeferredRun, i: int)
    requires
        is_deferred_run(run),
        run.has(i),
    ensures
        ({
            let before = run.actions[i];
            let event = run.events[i];
            let after = run.actions[i + 1];
            &&& !(after is ProbeFlag)
            &&& after is ClearFlag ==> before is ProbeFlag && event == DeferredEvent::Flag(true)
            &&& after is Sync ==> before is ClearFlag && event is Done
            &&& after is QueryCommit ==> before is Sync && event is Done
            &&& after is FindSpare ==> before is QueryCommit && event == DeferredEvent::NeedsCommit(
                false,
            )
            &&& after matches DeferredAction::SetTryNext { group } ==> before is FindSpare && event
                == DeferredEvent::Spare(Some(group))
            &&& after is Reboot ==> before is SetTryNext && event is Done
            &&& after is Done ==> ({
                ||| before is ProbeFlag && event == DeferredEvent::Flag(false)
                ||| before is QueryCommit && event == DeferredEvent::NeedsCommit(true)
                ||| before is FindSpare && event == DeferredEvent::Spare(None)
                ||| before is Reboot && event is Done
            })
            &&& after is Fail ==> event is Failed || before is Done || before is Fail
                || !deferred_fits(before, event)
        }),
{
    lemma_awaits_deferred(run, i);
    lemma_awaits_deferred(run, i + 1);
}

/// Whether an outcome is one of the action.
pub open spec fn deferred_fits(action: DeferredAction, event: DeferredEvent) -> bool {
    match action {
        DeferredAction::ProbeFlag => event is Flag,
        DeferredAction::QueryCommit => event is NeedsCommit,
        DeferredAction::FindSpare => event is Spare,
        _ => event is Done,
    }
}

} // verus!

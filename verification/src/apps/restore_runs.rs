//! What every run of restoring units satisfies.

use vstd::prelude::*;
use crate::apps::restore::{
    Restore, RestoreAction, RestorePhase, UnitAction, UnitEvent, UnitPhase, UnitRestore,
};
use crate::run::Run;
use crate::text::{opt_view, views};

verus! {

/// A run of restoring the units of an app.
pub type UnitRun = Run<UnitRestore, UnitAction, UnitEvent>;

/// Whether these are the states, actions and outcomes of restoring the units of an app from
/// the beginning.
pub open spec fn is_unit_run(run: UnitRun) -> bool {
    &&& run.wf()
    &&& run.states[0].phase is FindingGeneration
    &&& run.states[0].restored@.len() == 0
    &&& run.actions[0] is FindGeneration
    &&& forall|i: int| #[trigger]
        run.has(i) ==> {
            let before = run.states[i];
            let after = run.states[i + 1];
            &&& (after.phase, run.actions[i + 1]) == before.step(run.events[i])
            &&& opt_view(after.name) == before.next_name(run.events[i])
            &&& views(after.restored@) == before.next_restored(run.events[i])
        }
}

spec fn awaits_unit(phase: UnitPhase, action: UnitAction) -> bool {
    match phase {
        UnitPhase::FindingGeneration => action is FindGeneration,
        UnitPhase::ProbingUnits => action is ProbeUnits,
        UnitPhase::OpeningUnits => action is OpenUnits,
        UnitPhase::Reading => action is NextUnit,
        UnitPhase::Copying => action is CopyUnit,
        UnitPhase::Finished => action is Done || action is Fail,
    }
}

proof fn lemma_unit(run: UnitRun, i: int)
    requires
        is_unit_run(run),
        0 <= i < run.actions.len(),
    ensures
        awaits_unit(run.states[i].phase, run.actions[i]),
        run.actions[i] is CopyUnit ==> i > 0 && (run.events[i - 1] matches UnitEvent::Unit(unit)
            && unit.has_file_name && opt_view(run.states[i].name) == opt_view(unit.name)),
    decreases i,
{
    if i > 0 {
        assert(run.has(i - 1));
        lemma_unit(run, i - 1);
    }
}

/// Whether an outcome is one of the action.
pub open spec fn unit_fits(action: UnitAction, event: UnitEvent) -> bool {
    match action {
        UnitAction::FindGeneration => event is Generation,
        UnitAction::ProbeUnits { .. } => event is HasUnits,
        UnitAction::OpenUnits => event is Done,
        UnitAction::NextUnit => event is Unit || event is End,
        UnitAction::CopyUnit => event is Done,
        UnitAction::Done => false,
        UnitAction::Fail => false,
    }
}

/// The units of the active generation are copied one by one, each one that has a file name,
/// until there are no more.
pub proof fn law_units_are_copied_one_by_one(run: UnitRun, i: int)
    requires
        is_unit_run(run),
        run.has(i),
    ensures
        ({
            let before = run.actions[i];
            let event = run.events[i];
            let after = run.actions[i + 1];
            &&& run.actions[0] is FindGeneration
            &&& match after {
                UnitAction::FindGeneration => false,
                UnitAction::ProbeUnits { generation } => before is FindGeneration && event
                    == UnitEvent::Generation(Some(generation)),
                UnitAction::OpenUnits => before is ProbeUnits && event == UnitEvent::HasUnits(true),
                UnitAction::NextUnit => {
                    ||| before is OpenUnits && event is Done
                    ||| before is CopyUnit && event is Done
                    ||| before is NextUnit && (event matches UnitEvent::Unit(unit)
                        && !unit.has_file_name)
                },
                UnitAction::CopyUnit => before is NextUnit && (event matches UnitEvent::Unit(unit)
                    && unit.has_file_name),
                UnitAction::Done => {
                    ||| before is FindGeneration && event == UnitEvent::Generation(None)
                    ||| before is ProbeUnits && event == UnitEvent::HasUnits(false)
                    ||| before is NextUnit && event is End
                },
                UnitAction::Fail => !unit_fits(before, event),
            }
        }),
{
    lemma_unit(run, i);
    lemma_unit(run, i + 1);
}

/// A unit counts as restored once it is copied, under the name that it was found with, and
/// nothing else does.
pub proof fn law_copied_units_are_restored(run: UnitRun, i: int)
    requires
        is_unit_run(run),
        run.has(i),
    ensures
        ({
            let before = views(run.states[i].restored@);
            let after = views(run.states[i + 1].restored@);
            let copied = run.actions[i] is CopyUnit && run.events[i] is Done;
            &&& run.states[0].restored@.len() == 0
            &&& !copied ==> after == before
            &&& copied ==> i > 0 && (run.events[i - 1] matches UnitEvent::Unit(unit) && after
                == match unit.name {
                Some(name) => before.push(name@),
                None => before,
            })
        }),
{
    lemma_unit(run, i);
}

/// A run of restoring the units of all apps. An outcome is whether the action succeeded, and
/// the number of units that are restored after it.
pub type RestoreRun = Run<Restore, RestoreAction, (bool, usize)>;

/// Whether these are the states, actions and outcomes of restoring the units of all apps from
/// the beginning.
pub open spec fn is_restore_run(run: RestoreRun, apps: usize) -> bool {
    &&& run.wf()
    &&& run.states[0].wf()
    &&& run.states[0].apps == apps
    &&& run.states[0].units == 0
    &&& run.states[0].failures@.len() == 0
    &&& (run.states[0].phase, run.actions[0]) == Restore::to_app(apps, 0, 0, Seq::empty())
    &&& forall|i: int| #[trigger]
        run.has(i) ==> {
            let before = run.states[i];
            let after = run.states[i + 1];
            let (ok, units) = run.events[i];
            &&& after.wf()
            &&& after.apps == before.apps
            &&& after.units == if before.phase is Restoring {
                units
            } else {
                before.units
            }
            &&& after.failures@ == before.next_failures(ok)
            &&& (after.phase, run.actions[i + 1]) == before.step(ok, units)
        }
}

/// The number of units that are restored after the first `i` actions.
pub open spec fn units_so_far(run: RestoreRun, i: int) -> usize
    decreases i,
{
    if i <= 0 {
        0
    } else if run.actions[i - 1] is RestoreApp {
        run.events[i - 1].1
    } else {
        units_so_far(run, i - 1)
    }
}

/// Whether an action failed.
pub open spec fn went_wrong(run: RestoreRun, k: int) -> bool {
    !run.events[k].0 && !(run.actions[k] is Done) && !(run.actions[k] is Fail)
}

spec fn awaits_restore(phase: RestorePhase, action: RestoreAction) -> bool {
    match phase {
        RestorePhase::Restoring { app } => action == (RestoreAction::RestoreApp { app }),
        RestorePhase::Reloading => action is Reload,
        RestorePhase::Enabling { unit } => action == (RestoreAction::Enable { unit }),
        RestorePhase::Starting { unit } => action == (RestoreAction::Start { unit }),
        RestorePhase::Finished => action is Done || action is Fail,
    }
}

proof fn lemma_restore(run: RestoreRun, apps: usize, i: int)
    requires
        is_restore_run(run, apps),
        0 <= i < run.actions.len(),
    ensures
        awaits_restore(run.states[i].phase, run.actions[i]),
        run.states[i].wf(),
        run.states[i].apps == apps,
        run.states[i].units == units_so_far(run, i),
        run.states[i].failures@.len() == 0 <==> forall|k: int|
            0 <= k < i ==> !#[trigger] went_wrong(run, k),
    decreases i,
{
    if i > 0 {
        assert(run.has(i - 1));
        lemma_restore(run, apps, i - 1);
        if went_wrong(run, i - 1) {
            assert(run.states[i].failures@.len() > 0);
        } else {
            assert(run.states[i].failures@ == run.states[i - 1].failures@);
        }
        assert(run.states[i].failures@.len() == 0 <==> (run.states[i - 1].failures@.len() == 0
            && !went_wrong(run, i - 1)));
    }
}

/// The units of every app are restored in turn, whatever comes of the earlier ones. Where
/// there are units, the service manager is told once, and then every one of them is enabled
/// in turn, and started where that succeeds.
pub proof fn law_every_app_and_unit_is_restored(run: RestoreRun, apps: usize, i: int)
    requires
        is_restore_run(run, apps),
        run.has(i),
    ensures
        ({
            let before = run.actions[i];
            let ok = run.events[i].0;
            let after = run.actions[i + 1];
            let units = units_so_far(run, i + 1);
            let last_app = before matches RestoreAction::RestoreApp { app } && app + 1 == apps;
            let passed = |unit: int|
                {
                    ||| before matches RestoreAction::Start { unit: u } && u == unit
                    ||| before matches RestoreAction::Enable { unit: u } && u == unit && !ok
                };
            &&& apps == 0 ==> run.actions[0] is Done
            &&& apps > 0 ==> run.actions[0] == (RestoreAction::RestoreApp { app: 0 })
            &&& match after {
                RestoreAction::RestoreApp { app } => app < apps && (before matches
                    RestoreAction::RestoreApp { app: a } && a + 1 == app),
                RestoreAction::Reload => last_app && units > 0,
                RestoreAction::Enable { unit } => unit < units && if unit == 0 {
                    before is Reload && ok
                } else {
                    passed(unit - 1)
                },
                RestoreAction::Start { unit } => ok && before == (RestoreAction::Enable { unit }),
                _ => before is Done || before is Fail || last_app && units == 0 || before is Reload
                    && !ok || passed(units - 1),
            }
        }),
{
    lemma_restore(run, apps, i);
    lemma_restore(run, apps, i + 1);
}

/// Restoring ends as it went: with success where every action succeeded, else with a failure.
pub proof fn law_restore_ends_as_it_went(run: RestoreRun, apps: usize, i: int)
    requires
        is_restore_run(run, apps),
        0 <= i < run.actions.len(),
    ensures
        run.actions[i] is Done ==> forall|k: int| 0 <= k < i ==> !#[trigger] went_wrong(run, k),
        run.actions[i] is Fail ==> exists|k: int| 0 <= k < i && #[trigger] went_wrong(run, k),
{
    lemma_restore(run, apps, i);
    if i > 0 {
        assert(run.has(i - 1));
        lemma_restore(run, apps, i - 1);
    }
}

} // verus!

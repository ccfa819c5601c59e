//! Restoring app systemd units after a reboot.

use vstd::prelude::*;
use crate::path::{join, path_join};
use crate::text::{opt_view, views};

verus! {

/// Where the units of a generation are kept.
pub fn units_dir(generation_dir: &str) -> (r: String)
    ensures
        r@ == path_join(generation_dir@, ".rugix/systemd/units"@),
{
    join(generation_dir, ".rugix/systemd/units")
}

/// A kept unit.
#[derive(Debug)]
pub struct UnitEntry {
    /// Whether its path ends in a file name.
    pub has_file_name: bool,
    /// The file name, where it is a text.
    pub name: Option<String>,
}

/// What restoring the units of an app wants done next.
#[derive(Debug, Clone, Copy, PartialEq, Eq, Structural)]
pub enum UnitAction {
    /// Find the active generation of the app.
    FindGeneration,
    /// Find out whether the generation has units.
    ProbeUnits { generation: u64 },
    /// Open the directory of the units.
    OpenUnits,
    /// Read the next entry of the directory.
    NextUnit,
    /// Copy the unit to the runtime directory.
    CopyUnit,
    /// All units are restored.
    Done,
    /// The units could not be restored.
    Fail,
}

/// Outcome of an action.
#[derive(Debug)]
pub enum UnitEvent {
    Done,
    Failed,
    /// The active generation, if there is one.
    Generation(Option<u64>),
    /// Whether the generation has units.
    HasUnits(bool),
    /// Another unit.
    Unit(UnitEntry),
    /// There are no more units.
    End,
}

/// Progress of restoring the units of an app.
#[derive(Debug, Clone, Copy, PartialEq, Eq, Structural)]
pub enum UnitPhase {
    FindingGeneration,
    ProbingUnits,
    OpeningUnits,
    Reading,
    Copying,
    Finished,
}

/// Restores the units of an app, each as it is found. Only apps with an active generation have their units
/// restored.
#[derive(Debug)]
pub struct UnitRestore {
    pub phase: UnitPhase,
    /// The name of the current unit, where it is a text.
    pub name: Option<String>,
    /// The names of the units that are restored.
    pub restored: Vec<String>,
}

impl UnitRestore {
    /// The step that follows an outcome.
    pub open spec fn step(self, event: UnitEvent) -> (UnitPhase, UnitAction) {
        match (self.phase, event) {
            (UnitPhase::FindingGeneration, UnitEvent::Generation(generation)) => match generation {
                Some(generation) => (
                    UnitPhase::ProbingUnits,
                    UnitAction::ProbeUnits { generation },
                ),
                None => (UnitPhase::Finished, UnitAction::Done),
            },
            (UnitPhase::ProbingUnits, UnitEvent::HasUnits(has_units)) => if has_units {
                (UnitPhase::OpeningUnits, UnitAction::OpenUnits)
            } else {
                (UnitPhase::Finished, UnitAction::Done)
            },
            (UnitPhase::OpeningUnits, UnitEvent::Done) => (
                UnitPhase::Reading,
                UnitAction::NextUnit,
            ),
            (UnitPhase::Reading, UnitEvent::Unit(unit)) => if unit.has_file_name {
                (UnitPhase::Copying, UnitAction::CopyUnit)
            } else {
                (UnitPhase::Reading, UnitAction::NextUnit)
            },
            (UnitPhase::Reading, UnitEvent::End) => (UnitPhase::Finished, UnitAction::Done),
            (UnitPhase::Copying, UnitEvent::Done) => (UnitPhase::Reading, UnitAction::NextUnit),
            _ => (UnitPhase::Finished, UnitAction::Fail),
        }
    }

    /// The name of the current unit after an outcome.
    pub open spec fn next_name(self, event: UnitEvent) -> Option<Seq<char>> {
        match (self.phase, event) {
            (UnitPhase::Reading, UnitEvent::Unit(unit)) => opt_view(unit.name),
            _ => opt_view(self.name),
        }
    }

    /// The restored units after an outcome: a unit is restored once it is copied.
    pub open spec fn next_restored(self, event: UnitEvent) -> Seq<Seq<char>> {
        match (self.phase, event) {
            (UnitPhase::Copying, UnitEvent::Done) => match self.name {
                Some(name) => views(self.restored@).push(name@),
                None => views(self.restored@),
            },
            _ => views(self.restored@),
        }
    }

    /// Begins to restore the units of an app.
    pub fn restore_app_units() -> (r: (UnitRestore, UnitAction))
        ensures
            r.0.phase == UnitPhase::FindingGeneration,
            r.0.restored@.len() == 0,
            r.1 == UnitAction::FindGeneration,
    {
        (
            UnitRestore {
                phase: UnitPhase::FindingGeneration,
                name: None,
                restored: Vec::new(),
            },
            UnitAction::FindGeneration,
        )
    }

    /// Takes the outcome of the last action and names the next one.
    pub fn next(&mut self, event: UnitEvent) -> (action: UnitAction)
        ensures
            (final(self).phase, action) == old(self).step(event),
            opt_view(final(self).name) == old(self).next_name(event),
            views(final(self).restored@) == old(self).next_restored(event),
    {
        let (phase, action) = match (self.phase, event) {
            (UnitPhase::FindingGeneration, UnitEvent::Generation(generation)) => match generation {
                Some(generation) => (
                    UnitPhase::ProbingUnits,
                    UnitAction::ProbeUnits { generation },
                ),
                None => (UnitPhase::Finished, UnitAction::Done),
            },
            (UnitPhase::ProbingUnits, UnitEvent::HasUnits(has_units)) => if has_units {
                (UnitPhase::OpeningUnits, UnitAction::OpenUnits)
            } else {
                (UnitPhase::Finished, UnitAction::Done)
            },
            (UnitPhase::OpeningUnits, UnitEvent::Done) => (
                UnitPhase::Reading,
                UnitAction::NextUnit,
            ),
            (UnitPhase::Reading, UnitEvent::Unit(unit)) => {
                self.name = unit.name;
                if unit.has_file_name {
                    (UnitPhase::Copying, UnitAction::CopyUnit)
                } else {
                    (UnitPhase::Reading, UnitAction::NextUnit)
                }
            },
            (UnitPhase::Reading, UnitEvent::End) => (UnitPhase::Finished, UnitAction::Done),
            (UnitPhase::Copying, UnitEvent::Done) => {
                if let Some(name) = &self.name {
                    let ghost before = views(self.restored@);
                    self.restored.push(name.clone());
                    assert(views(self.restored@) =~= before.push(name@));
                }
                (UnitPhase::Reading, UnitAction::NextUnit)
            },
            _ => (UnitPhase::Finished, UnitAction::Fail),
        };
        self.phase = phase;
        action
    }
}

/// A unit that is restored stays restored, whatever comes of the later ones.
pub proof fn law_restored_units_are_kept(restore: UnitRestore, event: UnitEvent)
    ensures
        views(restore.restored@).is_prefix_of(restore.next_restored(event)),
{
}

/// What restoring the units of all apps wants done next.
#[derive(Debug, Clone, Copy, PartialEq, Eq, Structural)]
pub enum RestoreAction {
    /// Restore the units of an app.
    RestoreApp { app: usize },
    /// Run `systemctl daemon-reload`.
    Reload,
    /// Enable a restored unit.
    Enable { unit: usize },
    /// Queue a restored unit for start.
    Start { unit: usize },
    /// Everything is restored.
    Done,
    /// One or more app units could not be restored.
    Fail,
}

/// Why something could not be restored.
#[derive(Debug, Clone, Copy, PartialEq, Eq, Structural)]
pub enum RestoreFailure {
    App { app: usize },
    Enable { unit: usize },
    Start { unit: usize },
    Reload,
}

/// Progress of restoring the units of all apps.
#[derive(Debug, Clone, Copy, PartialEq, Eq, Structural)]
pub enum RestorePhase {
    Restoring { app: usize },
    Reloading,
    Enabling { unit: usize },
    Starting { unit: usize },
    Finished,
}

/// Restores the units of all apps. A failure with one of them does not keep the others from
/// being restored.
#[derive(Debug)]
pub struct Restore {
    pub phase: RestorePhase,
    pub apps: usize,
    /// Number of units that are restored so far.
    pub units: usize,
    pub failures: Vec<RestoreFailure>,
}

impl Restore {
    pub open spec fn wf(self) -> bool {
        match self.phase {
            RestorePhase::Restoring { app } => app < self.apps,
            RestorePhase::Reloading => self.units > 0,
            RestorePhase::Enabling { unit } => unit < self.units,
            RestorePhase::Starting { unit } => unit < self.units,
            RestorePhase::Finished => true,
        }
    }

    /// The end.
    pub open spec fn to_end(failures: Seq<RestoreFailure>) -> (RestorePhase, RestoreAction) {
        (
            RestorePhase::Finished,
            if failures.len() == 0 {
                RestoreAction::Done
            } else {
                RestoreAction::Fail
            },
        )
    }

    /// The step that restores an app, or what follows the last one.
    pub open spec fn to_app(
        apps: usize,
        app: int,
        units: usize,
        failures: Seq<RestoreFailure>,
    ) -> (RestorePhase, RestoreAction) {
        if app < apps {
            (
                RestorePhase::Restoring { app: app as usize },
                RestoreAction::RestoreApp { app: app as usize },
            )
        } else if units > 0 {
            (RestorePhase::Reloading, RestoreAction::Reload)
        } else {
            Self::to_end(failures)
        }
    }

    /// The step that enables a unit, or the end.
    pub open spec fn to_enable(units: usize, unit: int, failures: Seq<RestoreFailure>) -> (
        RestorePhase,
        RestoreAction,
    ) {
        if unit < units {
            (
                RestorePhase::Enabling { unit: unit as usize },
                RestoreAction::Enable { unit: unit as usize },
            )
        } else {
            Self::to_end(failures)
        }
    }

    /// The failures after an action, which succeeded or not.
    pub open spec fn next_failures(self, ok: bool) -> Seq<RestoreFailure> {
        if ok {
            self.failures@
        } else {
            match self.phase {
                RestorePhase::Restoring { app } => self.failures@.push(
                    RestoreFailure::App { app },
                ),
                RestorePhase::Reloading => self.failures@.push(RestoreFailure::Reload),
                RestorePhase::Enabling { unit } => self.failures@.push(
                    RestoreFailure::Enable { unit },
                ),
                RestorePhase::Starting { unit } => self.failures@.push(
                    RestoreFailure::Start { unit },
                ),
                RestorePhase::Finished => self.failures@,
            }
        }
    }

    /// The step that follows an action, which succeeded or not. `units` is the number of
    /// units that are restored now.
    pub open spec fn step(self, ok: bool, units: usize) -> (RestorePhase, RestoreAction) {
        let failures = self.next_failures(ok);
        match self.phase {
            RestorePhase::Restoring { app } => Self::to_app(self.apps, app + 1, units, failures),
            RestorePhase::Reloading => if ok {
                Self::to_enable(self.units, 0, failures)
            } else {
                Self::to_end(failures)
            },
            RestorePhase::Enabling { unit } => if ok {
                (RestorePhase::Starting { unit }, RestoreAction::Start { unit })
            } else {
                Self::to_enable(self.units, unit + 1, failures)
            },
            RestorePhase::Starting { unit } => Self::to_enable(self.units, unit + 1, failures),
            RestorePhase::Finished => Self::to_end(failures),
        }
    }

    /// Begins to restore the units of all apps.
    pub fn restore_units(apps: usize) -> (r: (Restore, RestoreAction))
        ensures
            r.0.wf(),
            r.0.apps == apps,
            r.0.units == 0,
            r.0.failures@.len() == 0,
            (r.0.phase, r.1) == Self::to_app(apps, 0, 0, Seq::empty()),
    {
        if apps == 0 {
            (
                Restore { phase: RestorePhase::Finished, apps, units: 0, failures: Vec::new() },
                RestoreAction::Done,
            )
        } else {
            (
                Restore {
                    phase: RestorePhase::Restoring { app: 0 },
                    apps,
                    units: 0,
                    failures: Vec::new(),
                },
                RestoreAction::RestoreApp { app: 0 },
            )
        }
    }

    fn end(&self) -> (r: (RestorePhase, RestoreAction))
        ensures
            r == Self::to_end(self.failures@),
    {
        if self.failures.len() == 0 {
            (RestorePhase::Finished, RestoreAction::Done)
        } else {
            (RestorePhase::Finished, RestoreAction::Fail)
        }
    }

    fn enable(&self, unit: usize) -> (r: (RestorePhase, RestoreAction))
        ensures
            r == Self::to_enable(self.units, unit as int, self.failures@),
    {
        if unit < self.units {
            (RestorePhase::Enabling { unit }, RestoreAction::Enable { unit })
        } else {
            self.end()
        }
    }

    /// Takes whether the last action succeeded, and names the next one. `units` is the
    /// number of units that are restored now; units that were restored before a failure
    /// count.
    pub fn next(&mut self, ok: bool, units: usize) -> (action: RestoreAction)
        requires
            old(self).wf(),
        ensures
            final(self).wf(),
            final(self).apps == old(self).apps,
            final(self).units == if old(self).phase is Restoring {
                units
            } else {
                old(self).units
            },
            final(self).failures@ == old(self).next_failures(ok),
            (final(self).phase, action) == old(self).step(ok, units),
    {
        let (phase, action) = match self.phase {
            RestorePhase::Restoring { app } => {
                self.units = units;
                if !ok {
                    self.failures.push(RestoreFailure::App { app });
                }
                let next: usize = app + 1;
                if next < self.apps {
                    (
                        RestorePhase::Restoring { app: next },
                        RestoreAction::RestoreApp { app: next },
                    )
                } else if units > 0 {
                    (RestorePhase::Reloading, RestoreAction::Reload)
                } else {
                    self.end()
                }
            },
            RestorePhase::Reloading => {
                if ok {
                    self.enable(0)
                } else {
                    self.failures.push(RestoreFailure::Reload);
                    self.end()
                }
            },
            RestorePhase::Enabling { unit } => {
                if ok {
                    (RestorePhase::Starting { unit }, RestoreAction::Start { unit })
                } else {
                    self.failures.push(RestoreFailure::Enable { unit });
                    self.enable(unit + 1)
                }
            },
            RestorePhase::Starting { unit } => {
                if !ok {
                    self.failures.push(RestoreFailure::Start { unit });
                }
                self.enable(unit + 1)
            },
            RestorePhase::Finished => self.end(),
        };
        self.phase = phase;
        action
    }
}

/// Restoring reports success only where nothing failed.
pub proof fn law_restore_reports_every_failure(restore: Restore, ok: bool, units: usize)
    requires
        restore.step(ok, units).1 is Done,
    ensures
        restore.next_failures(ok).len() == 0,
{
}

} // verus!

//! Recovery of all applications after a boot.

use vstd::prelude::*;

verus! {

/// Where the recovery of all applications is.
#[derive(Debug, Clone, Copy, PartialEq, Eq, Structural)]
pub enum RecoverAllPhase {
    /// The current application is being locked.
    Locking,
    /// The current application, which is locked, is being recovered.
    Recovering,
    Finished,
}

/// What the recovery of all applications wants done next. Applications are given by their
/// position.
#[derive(Debug, Clone, Copy, PartialEq, Eq, Structural)]
pub enum RecoverAllAction {
    /// Release the lock that is held, if any, and lock the application.
    Lock { app: usize },
    /// Recover the application, whose lock is held.
    Recover { app: usize },
    /// All applications were tried.
    Done,
}

/// Where the recovery is, and what it wants done next.
pub type RecoverAllStep = (RecoverAllPhase, RecoverAllAction);

/// The step that begins with an application, where there is one.
pub open spec fn turn_to(app: int, count: nat) -> RecoverAllStep {
    if 0 <= app < count {
        (RecoverAllPhase::Locking, RecoverAllAction::Lock { app: app as usize })
    } else {
        (RecoverAllPhase::Finished, RecoverAllAction::Done)
    }
}

/// The step that follows an action, which succeeded or not: an application that is locked is
/// recovered, and one that cannot be locked is skipped. Neither failure ends the recovery.
pub open spec fn step_after(phase: RecoverAllPhase, app: int, count: nat, ok: bool) -> RecoverAllStep {
    match phase {
        RecoverAllPhase::Locking => if ok {
            (RecoverAllPhase::Recovering, RecoverAllAction::Recover { app: app as usize })
        } else {
            turn_to(app + 1, count)
        },
        RecoverAllPhase::Recovering => turn_to(app + 1, count),
        RecoverAllPhase::Finished => (RecoverAllPhase::Finished, RecoverAllAction::Done),
    }
}

/// The recovery of all applications, one after the other.
#[derive(Debug)]
pub struct RecoverAll {
    pub phase: RecoverAllPhase,
    /// The current application.
    pub app: usize,
    /// How many applications there are.
    pub count: usize,
}

impl RecoverAll {
    /// What holds while the recovery goes on.
    pub open spec fn wf(self) -> bool {
        self.phase is Finished || self.app < self.count
    }

    /// Begins with the first of the applications.
    pub fn begin(count: usize) -> (r: (RecoverAll, RecoverAllAction))
        ensures
            r.0.wf(),
            r.0.app == 0,
            r.0.count == count,
            (r.0.phase, r.1) == turn_to(0, count as nat),
    {
        let (phase, action) = if count > 0 {
            (RecoverAllPhase::Locking, RecoverAllAction::Lock { app: 0 })
        } else {
            (RecoverAllPhase::Finished, RecoverAllAction::Done)
        };
        (RecoverAll { phase, app: 0, count }, action)
    }

    /// Takes whether the last action succeeded, and names the next one.
    pub fn next(&mut self, ok: bool) -> (action: RecoverAllAction)
        requires
            old(self).wf(),
        ensures
            final(self).wf(),
            final(self).count == old(self).count,
            (final(self).phase, action) == step_after(
                old(self).phase,
                old(self).app as int,
                old(self).count as nat,
                ok,
            ),
            final(self).app == if final(self).phase is Locking {
                old(self).app + 1
            } else {
                old(self).app as int
            },
    {
        if self.phase == RecoverAllPhase::Finished {
            return RecoverAllAction::Done;
        }
        if self.phase == RecoverAllPhase::Locking && ok {
            self.phase = RecoverAllPhase::Recovering;
            return RecoverAllAction::Recover { app: self.app };
        }
        if self.app + 1 < self.count {
            self.phase = RecoverAllPhase::Locking;
            self.app = self.app + 1;
            RecoverAllAction::Lock { app: self.app }
        } else {
            self.phase = RecoverAllPhase::Finished;
            RecoverAllAction::Done
        }
    }
}

/// All actions from a step on, given which applications can be locked and recovered.
pub open spec fn actions_from(
    step: RecoverAllStep,
    app: int,
    count: nat,
    locked: spec_fn(int) -> bool,
    recovered: spec_fn(int) -> bool,
) -> Seq<RecoverAllAction>
    decreases
            count - app,
            if step.0 is Locking {
                1int
            } else {
                0int
            },
{
    if app < 0 || app >= count || step.0 is Finished {
        seq![step.1]
    } else {
        let ok = if step.0 is Locking {
            locked(app)
        } else {
            recovered(app)
        };
        let next = step_after(step.0, app, count, ok);
        let next_app = if next.0 is Recovering {
            app
        } else {
            app + 1
        };
        seq![step.1] + actions_from(next, next_app, count, locked, recovered)
    }
}

/// The applications from `app` on, each of which is locked, and recovered where that
/// succeeded.
pub open spec fn all_tried(app: int, count: nat, locked: spec_fn(int) -> bool) -> Seq<
    RecoverAllAction,
>
    decreases count - app,
{
    if app < 0 || app >= count {
        seq![RecoverAllAction::Done]
    } else {
        let rest = all_tried(app + 1, count, locked);
        if locked(app) {
            seq![
                RecoverAllAction::Lock { app: app as usize },
                RecoverAllAction::Recover { app: app as usize },
            ] + rest
        } else {
            seq![RecoverAllAction::Lock { app: app as usize }] + rest
        }
    }
}

/// Every application is tried, in order: it is locked first, it is recovered where it could
/// be locked and only there, and neither a failed lock nor a failed recovery keeps the later
/// applications from being tried or the recovery from ending well.
pub proof fn law_every_app_is_tried(
    count: usize,
    locked: spec_fn(int) -> bool,
    recovered: spec_fn(int) -> bool,
)
    ensures
        actions_from(turn_to(0, count as nat), 0, count as nat, locked, recovered) == all_tried(
            0,
            count as nat,
            locked,
        ),
{
    lemma_tried_from(0, count as nat, locked, recovered);
}

proof fn lemma_tried_from(
    app: int,
    count: nat,
    locked: spec_fn(int) -> bool,
    recovered: spec_fn(int) -> bool,
)
    requires
        0 <= app <= count,
    ensures
        actions_from(turn_to(app, count), app, count, locked, recovered) == all_tried(
            app,
            count,
            locked,
        ),
    decreases count - app,
{
    if app < count {
        lemma_tried_from(app + 1, count, locked, recovered);
        let lock = turn_to(app, count);
        let rest = actions_from(turn_to(app + 1, count), app + 1, count, locked, recovered);
        if locked(app) {
            let recover = step_after(lock.0, app, count, true);
            assert(actions_from(recover, app, count, locked, recovered) == seq![recover.1] + rest);
            assert(seq![lock.1] + (seq![recover.1] + rest) =~= seq![lock.1, recover.1] + rest);
        }
    }
}

} // verus!

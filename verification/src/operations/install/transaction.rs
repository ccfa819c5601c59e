//! Activation of several applications, all or none.

use vstd::prelude::*;

verus! {

/// An application that is to be activated.
#[derive(Debug, Clone, PartialEq, Eq)]
pub struct AppActivationPlan {
    pub app: String,
    pub generation: u64,
    /// The generation that was active before.
    pub previous: Option<u64>,
}

/// A failed activation, and what came of rolling back the earlier ones.
#[derive(Debug)]
pub struct AppActivationFailure<E> {
    pub app: String,
    pub error: E,
    /// For each application that was rolled back, the outcome; the one that was
    /// activated last comes first.
    pub rollbacks: Vec<(String, Result<(), E>)>,
}

/// Whether every plan before `n` was activated.
pub open spec fn activated_before<E, A: Fn(&AppActivationPlan) -> Result<(), E>>(
    activate: A,
    plans: Seq<AppActivationPlan>,
    n: int,
) -> bool {
    forall|i: int|
        0 <= i < n ==> call_ensures(activate, (&#[trigger] plans[i],), Ok::<(), E>(()))
}

/// Whether the rollbacks are those of the plans before `n`, in reverse order.
pub open spec fn rolled_back<E, R: Fn(&AppActivationPlan) -> Result<(), E>>(
    rollback: R,
    plans: Seq<AppActivationPlan>,
    n: int,
    rollbacks: Seq<(String, Result<(), E>)>,
) -> bool {
    &&& rollbacks.len() == n
    &&& forall|j: int|
        0 <= j < n ==> (#[trigger] rollbacks[j]).0@ == plans[n - 1 - j].app@ && call_ensures(
            rollback,
            (&plans[n - 1 - j],),
            rollbacks[j].1,
        )
}

/// Whether each plan can be activated once all plans before it are.
pub open spec fn may_activate<E, A: Fn(&AppActivationPlan) -> Result<(), E>>(
    activate: A,
    plans: Seq<AppActivationPlan>,
) -> bool {
    forall|i: int|
        0 <= i < plans.len() && #[trigger] activated_before(activate, plans, i) ==> call_requires(
            activate,
            (&plans[i],),
        )
}

/// Whether the plan at position `k` is the first that is not activated.
pub open spec fn failed_first<E, A: Fn(&AppActivationPlan) -> Result<(), E>>(
    activate: A,
    plans: Seq<AppActivationPlan>,
    k: int,
) -> bool {
    &&& 0 <= k < plans.len()
    &&& activated_before(activate, plans, k)
    &&& exists|error: E| call_ensures(activate, (&plans[k],), Err::<(), E>(error))
}

/// Whether a plan was rolled back, whatever came of it.
pub open spec fn was_rolled_back<E, R: Fn(&AppActivationPlan) -> Result<(), E>>(
    rollback: R,
    plan: AppActivationPlan,
) -> bool {
    exists|outcome: Result<(), E>| call_ensures(rollback, (&plan,), outcome)
}

/// Whether every plan between `i` and `k` was rolled back.
pub open spec fn rolled_back_after<E, R: Fn(&AppActivationPlan) -> Result<(), E>>(
    rollback: R,
    plans: Seq<AppActivationPlan>,
    i: int,
    k: int,
) -> bool {
    forall|m: int| i < m < k ==> #[trigger] was_rolled_back::<E, R>(rollback, plans[m])
}

/// Whether each plan can be rolled back once it is activated, a later one failed, and all
/// plans between the two were rolled back. Nothing is said of rolling back any other plan.
pub open spec fn may_roll_back<
    E,
    A: Fn(&AppActivationPlan) -> Result<(), E>,
    R: Fn(&AppActivationPlan) -> Result<(), E>,
>(activate: A, rollback: R, plans: Seq<AppActivationPlan>) -> bool {
    forall|i: int, k: int|
        #![trigger failed_first(activate, plans, k), rolled_back_after(rollback, plans, i, k)]
        0 <= i < k && failed_first(activate, plans, k) && rolled_back_after(rollback, plans, i, k)
            ==> call_requires(rollback, (&plans[i],))
}

/// Activates applications in order. At the first failure, every application that
/// was activated before is rolled back, in reverse order, whatever comes of the
/// other rollbacks. No other plan can be rolled back, none before those after it were, and
/// none can be activated before those before it are. How often a closure is called with the
/// same plan is not stated.
pub fn run_app_activation_transaction<
    E,
    A: Fn(&AppActivationPlan) -> Result<(), E>,
    R: Fn(&AppActivationPlan) -> Result<(), E>,
>(plans: &[AppActivationPlan], activate: A, rollback: R) -> (r: Result<
    (),
    AppActivationFailure<E>,
>)
    requires
        may_activate(activate, plans@),
        may_roll_back(activate, rollback, plans@),
    ensures
        match r {
            Ok(()) => activated_before(activate, plans@, plans@.len() as int),
            Err(failure) => exists|k: int|
                0 <= k < plans@.len() && #[trigger] activated_before(activate, plans@, k)
                    && call_ensures(activate, (&plans@[k],), Err::<(), E>(failure.error))
                    && failure.app@ == plans@[k].app@ && rolled_back(
                    rollback,
                    plans@,
                    k,
                    failure.rollbacks@,
                ),
        },
{
    let mut i: usize = 0;
    while i < plans.len()
        invariant
            i <= plans@.len(),
            activated_before(activate, plans@, i as int),
            may_activate(activate, plans@),
            may_roll_back(activate, rollback, plans@),
        decreases plans@.len() - i,
    {
        let plan = &plans[i];
        assert(*plan == plans@[i as int]);
        match activate(plan) {
            Ok(unit) => {
                assert(unit == ());
            },
            Err(error) => {
                assert(call_ensures(activate, (&plans@[i as int],), Err::<(), E>(error)));
                assert(failed_first(activate, plans@, i as int));
                let mut rollbacks: Vec<(String, Result<(), E>)> = Vec::new();
                let mut j: usize = 0;
                while j < i
                    invariant
                        j <= i < plans@.len(),
                        rollbacks@.len() == j,
                        may_roll_back(activate, rollback, plans@),
                        failed_first(activate, plans@, i as int),
                        forall|b: int|
                            0 <= b < j ==> (#[trigger] rollbacks@[b]).0@ == plans@[i - 1 - b].app@
                                && call_ensures(
                                rollback,
                                (&plans@[i - 1 - b],),
                                rollbacks@[b].1,
                            ),
                    decreases i - j,
                {
                    let activated = &plans[i - 1 - j];
                    assert(*activated == plans@[i - 1 - j]);
                    assert(rolled_back_after(rollback, plans@, i - 1 - j, i as int)) by {
                        assert forall|m: int| i - 1 - j < m < i implies #[trigger]
                        was_rolled_back::<E, R>(rollback, plans@[m]) by {
                            let b = i - 1 - m;
                            assert(call_ensures(rollback, (&plans@[m],), rollbacks@[b].1));
                        }
                    }
                    let outcome = rollback(activated);
                    rollbacks.push((activated.app.clone(), outcome));
                    j = j + 1;
                }
                let failure = AppActivationFailure { app: plan.app.clone(), error, rollbacks };
                assert(rolled_back(rollback, plans@, i as int, failure.rollbacks@));
                return Err(failure);
            },
        }
        i = i + 1;
    }
    Ok(())
}

} // verus!

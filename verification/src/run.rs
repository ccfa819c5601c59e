//! Runs of machines.
//!
//! A machine names one action at a time and takes its outcome. What a machine is for is
//! stated of its runs: in terms of the actions and of their outcomes, whatever the machine
//! keeps in mind between them.

use vstd::prelude::*;

verus! {

/// A run of a machine: the states that it passes through, the action that it names in each
/// of them, and the outcome of each action but the last.
pub struct Run<S, A, E> {
    pub states: Seq<S>,
    pub actions: Seq<A>,
    pub events: Seq<E>,
}

impl<S, A, E> Run<S, A, E> {
    /// Whether there is a state for each action, and an outcome for each but the last.
    pub open spec fn wf(self) -> bool {
        &&& self.states.len() == self.actions.len()
        &&& self.actions.len() == self.events.len() + 1
    }

    /// Whether the outcome of the action `i` is known.
    pub open spec fn has(self, i: int) -> bool {
        0 <= i < self.events.len()
    }
}

} // verus!

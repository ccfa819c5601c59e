//! Typed operations.

use vstd::prelude::*;

pub mod apps;
pub mod install;
pub mod local;
pub mod state;
pub mod state_runs;
pub mod system;
pub mod system_runs;

verus! {

/// Receives events of a specific type.
pub trait EventSink<E> {
    /// Emit an event.
    fn emit(&mut self, event: E);
}

} // verus!

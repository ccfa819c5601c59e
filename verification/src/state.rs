//! State management settings.

use vstd::prelude::*;

verus! {

/// What becomes of the overlay of the root filesystem.
#[derive(Debug, Clone, Copy, PartialEq, Eq, Structural)]
pub enum OverlayConfig {
    /// It is kept.
    Persist,
    /// It is discarded on every boot.
    Discard,
    /// It is in memory only.
    InMemory,
    /// There is none.
    Disabled,
}

/// What is done where the overlay cannot be set up.
#[derive(Debug, Clone, Copy, PartialEq, Eq, Structural)]
pub enum OverlayFallbackConfig {
    /// An overlay in memory is used.
    InMemory,
}

/// Something that is kept across reboots and updates.
#[derive(Debug)]
pub enum PersistConfig {
    Directory { directory: String },
    /// A file, and what it holds at first where the system does not have it.
    File { file: String, default: Option<String> },
}

/// Settings of the state management.
#[derive(Debug)]
pub struct StateConfig {
    pub overlay: Option<OverlayConfig>,
    pub overlay_fallback: Option<OverlayFallbackConfig>,
    pub persist: Option<Vec<PersistConfig>>,
}

impl StateConfig {
    /// Settings that say nothing.
    pub fn new() -> (r: StateConfig)
        ensures
            r.overlay is None,
            r.overlay_fallback is None,
            r.persist is None,
    {
        StateConfig { overlay: None, overlay_fallback: None, persist: None }
    }

    /// What is kept.
    pub open spec fn persisted(self) -> Seq<PersistConfig> {
        match self.persist {
            Some(persist) => persist@,
            None => Seq::empty(),
        }
    }
}

/// The first of two settings that says something.
pub open spec fn first_set<T>(a: Option<T>, b: Option<T>) -> Option<T> {
    if a is Some {
        a
    } else {
        b
    }
}

/// Merges settings into others. Where both say something of the overlay, the ones that
/// came first are right; what is to be kept accumulates.
pub fn merge(target: &mut StateConfig, other: StateConfig)
    ensures
        final(target).overlay == first_set(old(target).overlay, other.overlay),
        final(target).overlay_fallback == first_set(
            old(target).overlay_fallback,
            other.overlay_fallback,
        ),
        final(target).persisted() == old(target).persisted() + other.persisted(),
        final(target).persist is Some == (old(target).persist is Some || other.persist is Some),
{
    let ghost before = target.persisted();
    if target.overlay.is_none() {
        target.overlay = other.overlay;
    }
    if target.overlay_fallback.is_none() {
        target.overlay_fallback = other.overlay_fallback;
    }
    let mut merged: Option<Vec<PersistConfig>> = None;
    std::mem::swap(&mut merged, &mut target.persist);
    target.persist = match (merged, other.persist) {
        (Some(mut first), Some(mut second)) => {
            first.append(&mut second);
            Some(first)
        },
        (Some(first), None) => Some(first),
        (None, second) => second,
    };
    assert(target.persisted() =~= before + other.persisted());
}

/// Settings that are merged one after the other do not depend on how they are grouped. A
/// setting that says something is kept, and one that says nothing is filled in.
pub proof fn law_first_setting_is_kept<T>(a: Option<T>, b: Option<T>, c: Option<T>)
    ensures
        a is Some ==> first_set(a, b) == a,
        first_set(None, b) == b,
        first_set(first_set(a, b), c) == first_set(a, first_set(b, c)),
{
}

} // verus!

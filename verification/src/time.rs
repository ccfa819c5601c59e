//! Spans of time.

use vstd::prelude::*;

verus! {

/// Nanoseconds of a second.
pub const NANOS_PER_SEC: u32 = 1_000_000_000;

/// A span of time: seconds and nanoseconds.
#[derive(Debug, Clone, Copy, PartialEq, Eq, Structural)]
pub struct Duration {
    pub secs: u64,
    pub nanos: u32,
}

impl Duration {
    /// Whether the nanoseconds are less than a second.
    pub open spec fn wf(self) -> bool {
        self.nanos < NANOS_PER_SEC
    }

    /// The length in nanoseconds.
    pub open spec fn total(self) -> nat {
        (self.secs * NANOS_PER_SEC + self.nanos) as nat
    }

    /// A span of whole seconds.
    pub fn from_secs(secs: u64) -> (r: Duration)
        ensures
            r == (Duration { secs, nanos: 0 }),
            r.wf(),
    {
        Duration { secs, nanos: 0 }
    }

    /// The length in nanoseconds.
    pub fn as_nanos(self) -> (r: u128)
        ensures
            r == self.total(),
    {
        let secs: u128 = self.secs as u128;
        let nanos: u128 = self.nanos as u128;
        assert(secs * 1_000_000_000 <= 0xffff_ffff_ffff_ffff * 1_000_000_000) by (nonlinear_arith)
            requires
                secs <= 0xffff_ffff_ffff_ffff,
        ;
        secs * 1_000_000_000 + nanos
    }

    /// The span of the given length, which must not have more seconds than fit.
    pub fn from_nanos(nanos: u128) -> (r: Duration)
        requires
            nanos / 1_000_000_000 <= u64::MAX,
        ensures
            r.wf(),
            r.total() == nanos,
    {
        let secs: u64 = (nanos / 1_000_000_000) as u64;
        let rest: u32 = (nanos % 1_000_000_000) as u32;
        Duration { secs, nanos: rest }
    }

    /// The whole seconds of the span.
    pub fn as_secs(self) -> (r: u64)
        ensures
            r == self.secs,
    {
        self.secs
    }
}

} // verus!

use vstd::prelude::*;

verus! {

/// A span of time held as whole seconds and the nanoseconds past them.
#[derive(Debug, Clone, Copy, PartialEq, Eq, Structural)]
pub struct TimeSpan {
    pub secs: u64,
    pub nanos: u32,
}

/// Nanoseconds in one second.
pub const NANOS_PER_SEC: u32 = 1_000_000_000;

impl TimeSpan {
    /// The nanoseconds part is below one second.
    pub open spec fn wf(self) -> bool {
        self.nanos < NANOS_PER_SEC
    }

    /// The whole span in nanoseconds.
    pub open spec fn total_nanos(self) -> int {
        self.secs * 1_000_000_000 + self.nanos
    }

    /// A span of exactly `secs` seconds.
    pub fn from_secs(secs: u64) -> (t: TimeSpan)
        ensures
            t.secs == secs,
            t.nanos == 0,
            t.wf(),
    {
        TimeSpan { secs, nanos: 0 }
    }

    /// A span of `millis` milliseconds.
    pub fn from_millis(millis: u64) -> (t: TimeSpan)
        ensures
            t.wf(),
            t.total_nanos() == millis * 1_000_000,
    {
        let secs = millis / 1000;
        let rest = millis % 1000;
        let nanos = (rest as u32) * 1_000_000;
        proof {
            assert(millis == secs * 1000 + rest);
            assert(millis * 1_000_000 == secs * 1_000_000_000 + rest * 1_000_000) by (nonlinear_arith)
                requires
                    millis == secs * 1000 + rest,
            ;
        }
        TimeSpan { secs, nanos }
    }

    /// Whether this span is at least as long as `other`.
    pub fn at_least(&self, other: &TimeSpan) -> (b: bool)
        ensures
            b == (self.total_nanos() >= other.total_nanos()),
    {
        let a = (self.secs as u128) * 1_000_000_000 + (self.nanos as u128);
        let c = (other.secs as u128) * 1_000_000_000 + (other.nanos as u128);
        a >= c
    }
}

} // verus!

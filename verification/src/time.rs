//! Spans of time and points in it, counted in nanoseconds.

use vstd::prelude::*;

verus! {

/// Nanoseconds in a millisecond.
pub const NANOS_PER_MILLI: u128 = 1_000_000;

/// Nanoseconds in a second.
pub const NANOS_PER_SEC: u128 = 1_000_000_000;

/// A span of time.
#[derive(Debug, Clone, Copy, PartialEq, Eq, PartialOrd, Ord, Hash, Structural)]
pub struct Duration {
    /// The span in nanoseconds.
    pub nanos: u128,
}

/// A point in time, as the nanoseconds since some fixed start that all the
/// points of one program share.
#[derive(Debug, Clone, Copy, PartialEq, Eq, PartialOrd, Ord, Hash, Structural)]
pub struct Instant {
    /// Nanoseconds since the start.
    pub nanos: u128,
}

/// `millis` milliseconds.
pub open spec fn millis(millis: int) -> int {
    millis * NANOS_PER_MILLI
}

/// `secs` seconds.
pub open spec fn secs(secs: int) -> int {
    secs * NANOS_PER_SEC
}

/// How long after `start` the point `now` is, in nanoseconds; nothing when it
/// is not after it.
pub open spec fn since(now: Instant, start: Instant) -> int {
    if now.nanos >= start.nanos {
        now.nanos - start.nanos
    } else {
        0
    }
}

impl Duration {
    /// A span of `millis` milliseconds.
    pub fn from_millis(millis: u64) -> (r: Duration)
        ensures
            r.nanos == self::millis(millis as int),
            r.nanos == millis * 1_000_000,
    {
        Duration { nanos: millis as u128 * NANOS_PER_MILLI }
    }

    /// A span of `secs` seconds.
    pub fn from_secs(secs: u64) -> (r: Duration)
        ensures
            r.nanos == self::secs(secs as int),
            r.nanos == secs * 1_000_000_000,
    {
        Duration { nanos: secs as u128 * NANOS_PER_SEC }
    }

    /// The whole seconds in this span.
    pub fn as_secs(self) -> (r: u128)
        ensures
            r == self.nanos as int / NANOS_PER_SEC as int,
            r * 1_000_000_000 <= self.nanos < (r + 1) * 1_000_000_000,
    {
        self.nanos / NANOS_PER_SEC
    }
}

impl Instant {
    /// How long after `earlier` this point is, or no time at all when it is not
    /// after it.
    pub fn duration_since(self, earlier: Instant) -> (r: Duration)
        ensures
            r.nanos == since(self, earlier),
            earlier.nanos <= self.nanos ==> earlier.nanos + r.nanos == self.nanos,
            earlier.nanos > self.nanos ==> r.nanos == 0,
    {
        if self.nanos >= earlier.nanos {
            Duration { nanos: self.nanos - earlier.nanos }
        } else {
            Duration { nanos: 0 }
        }
    }
}

} // verus!

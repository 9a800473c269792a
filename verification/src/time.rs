//! Spans of time and clock readings, counted in nanoseconds.

use vstd::prelude::*;

verus! {

/// A span of time.
#[derive(Clone, Copy, PartialEq, Eq, PartialOrd, Ord, Debug, Structural)]
pub struct Duration {
    /// The length of the span.
    pub nanos: u128,
}

impl Duration {
    /// No time at all.
    pub fn zero() -> (r: Self)
        ensures
            r.nanos == 0,
    {
        Duration { nanos: 0 }
    }

    /// A span of whole seconds.
    pub fn from_secs(secs: u64) -> (r: Self)
        ensures
            r.nanos == secs * 1_000_000_000,
    {
        Duration { nanos: (secs as u128) * 1_000_000_000 }
    }

    /// A span of whole milliseconds.
    pub fn from_millis(millis: u64) -> (r: Self)
        ensures
            r.nanos == millis * 1_000_000,
    {
        Duration { nanos: (millis as u128) * 1_000_000 }
    }

    /// A span of whole nanoseconds.
    pub fn from_nanos(nanos: u128) -> (r: Self)
        ensures
            r.nanos == nanos,
    {
        Duration { nanos }
    }

    /// The whole milliseconds in the span.
    pub fn as_millis(&self) -> (r: u128)
        ensures
            r == self.nanos as int / 1_000_000,
    {
        self.nanos / 1_000_000
    }
}

/// A reading of a steady clock: nanoseconds since the clock's own zero.
#[derive(Clone, Copy, PartialEq, Eq, PartialOrd, Ord, Debug, Structural)]
pub struct Instant {
    /// The reading.
    pub nanos: u128,
}

/// The reading `delay` after `at`, held at the end of the clock's range.
pub open spec fn later(at: nat, delay: nat) -> nat {
    if at + delay <= u128::MAX {
        at + delay
    } else {
        u128::MAX as nat
    }
}

impl Instant {
    /// The clock's zero plus `nanos`.
    pub fn from_nanos(nanos: u128) -> (r: Self)
        ensures
            r.nanos == nanos,
    {
        Instant { nanos }
    }

    /// The reading `delay` after this one, held at the end of the clock's range.
    pub fn after(&self, delay: Duration) -> (r: Self)
        ensures
            r.nanos == later(self.nanos as nat, delay.nanos as nat),
    {
        Instant { nanos: self.nanos.saturating_add(delay.nanos) }
    }

    /// The time from `earlier` to this reading; none if this one is not later.
    pub fn since(&self, earlier: Instant) -> (r: Duration)
        ensures
            r.nanos == if self.nanos >= earlier.nanos {
                self.nanos - earlier.nanos
            } else {
                0
            },
    {
        Duration { nanos: self.nanos.saturating_sub(earlier.nanos) }
    }
}

/// Time adds up: a reading later by a delay is the reading plus the delay, as
/// long as the clock goes that far, and else the last reading there is.
pub proof fn later_is_later(at: nat, delay: nat)
    requires
        at <= u128::MAX,
    ensures
        at + delay <= 0xffff_ffff_ffff_ffff_ffff_ffff_ffff_ffff ==> later(at, delay) == at + delay,
        at <= later(at, delay) <= u128::MAX,
        at + delay > u128::MAX ==> later(at, delay) == u128::MAX,
{
}

} // verus!

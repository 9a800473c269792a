//! Live crawl metrics.

use vstd::prelude::*;

use crate::time::{Duration, Instant};

verus! {

/// The counters of a crawl. Every counter wraps around at the end of its range.
#[derive(Debug, Clone, Copy)]
pub struct Stats {
    /// Pages successfully fetched.
    pub fetched: u64,
    /// Pages that failed (transport error, bad status, blocked, ...).
    pub failed: u64,
    /// URLs accepted into the frontier (after dedup and scope filtering).
    pub discovered: u64,
    /// Requests currently in flight.
    pub in_flight: u64,
    /// Total bytes downloaded.
    pub bytes: u64,
    /// When the counters were set up.
    pub start: Instant,
}

/// An immutable copy of [`Stats`] taken at one instant.
#[derive(Debug, Clone, Copy)]
pub struct StatsSnapshot {
    /// Pages successfully fetched.
    pub fetched: u64,
    /// Pages that failed.
    pub failed: u64,
    /// URLs accepted into the frontier.
    pub discovered: u64,
    /// Requests currently in flight.
    pub in_flight: u64,
    /// Total bytes downloaded.
    pub bytes: u64,
    /// Time since the crawl started.
    pub elapsed: Duration,
}

/// `a + b`, counted in 64 bits.
pub open spec fn wrapped_sum(a: u64, b: u64) -> u64 {
    if a + b <= u64::MAX {
        (a + b) as u64
    } else {
        (a + b - u64::MAX - 1) as u64
    }
}

/// `a - 1`, counted in 64 bits.
pub open spec fn wrapped_predecessor(a: u64) -> u64 {
    if a > 0 {
        (a - 1) as u64
    } else {
        u64::MAX
    }
}

fn sum(a: u64, b: u64) -> (r: u64)
    ensures
        r == wrapped_sum(a, b),
{
    a.wrapping_add(b)
}

impl Stats {
    /// Create a fresh set of counters with the clock started.
    pub fn new(now: Instant) -> (r: Self)
        ensures
            r == (Stats { fetched: 0, failed: 0, discovered: 0, in_flight: 0, bytes: 0, start: now }),
    {
        Stats { fetched: 0, failed: 0, discovered: 0, in_flight: 0, bytes: 0, start: now }
    }

    /// Count a page that was fetched, with the size of its body.
    pub fn inc_fetched(&mut self, body_bytes: u64)
        ensures
            *final(self) == (Stats {
                fetched: wrapped_sum(old(self).fetched, 1),
                bytes: wrapped_sum(old(self).bytes, body_bytes),
                ..*old(self)
            }),
    {
        self.fetched = sum(self.fetched, 1);
        self.bytes = sum(self.bytes, body_bytes);
    }

    /// Count a page that failed.
    pub fn inc_failed(&mut self)
        ensures
            *final(self) == (Stats { failed: wrapped_sum(old(self).failed, 1), ..*old(self) }),
    {
        self.failed = sum(self.failed, 1);
    }

    /// Count URLs that were accepted into the frontier.
    pub fn add_discovered(&mut self, n: u64)
        ensures
            *final(self) == (Stats {
                discovered: wrapped_sum(old(self).discovered, n),
                ..*old(self)
            }),
    {
        self.discovered = sum(self.discovered, n);
    }

    /// Count a request that set out.
    pub fn inc_in_flight(&mut self)
        ensures
            *final(self) == (Stats { in_flight: wrapped_sum(old(self).in_flight, 1), ..*old(self) }),
    {
        self.in_flight = sum(self.in_flight, 1);
    }

    /// Count a request that came back.
    pub fn dec_in_flight(&mut self)
        ensures
            *final(self) == (Stats {
                in_flight: wrapped_predecessor(old(self).in_flight),
                ..*old(self)
            }),
    {
        self.in_flight = self.in_flight.wrapping_sub(1);
    }

    /// Take a snapshot for display.
    pub fn snapshot(&self, now: Instant) -> (r: StatsSnapshot)
        ensures
            r.fetched == self.fetched,
            r.failed == self.failed,
            r.discovered == self.discovered,
            r.in_flight == self.in_flight,
            r.bytes == self.bytes,
            r.elapsed.nanos == if now.nanos >= self.start.nanos {
                now.nanos - self.start.nanos
            } else {
                0
            },
    {
        StatsSnapshot {
            fetched: self.fetched,
            failed: self.failed,
            discovered: self.discovered,
            in_flight: self.in_flight,
            bytes: self.bytes,
            elapsed: now.since(self.start),
        }
    }
}

/// Counters count: one more is one more, one less is one less, and at the end of
/// 64 bits they start again.
pub proof fn counters_count(a: u64, b: u64)
    ensures
        a + b < 0x1_0000_0000_0000_0000 ==> wrapped_sum(a, b) == a + b,
        a + b >= 0x1_0000_0000_0000_0000 ==> wrapped_sum(a, b) == a + b - 0x1_0000_0000_0000_0000,
        a > 0 ==> wrapped_predecessor(a) == a - 1,
        wrapped_predecessor(0) == 0xffff_ffff_ffff_ffff,
{
}

} // verus!

//! Monotonic timestamps and durations.
//!
//! A [`Timestamp`] counts nanoseconds on the local monotonic clock; the
//! all-ones tick value is reserved as the distinguished invalid time. A
//! [`Duration`] is a nanosecond span whose all-ones value stands for an
//! infinite lease.

use vstd::prelude::*;

verus! {

/// Tick value reserved for [`Timestamp`]s that carry no time.
pub const TIME_INVALID_TICKS: u64 = 0xffff_ffff_ffff_ffff;

/// Tick value standing for an unbounded [`Duration`].
pub const DURATION_INFINITE_TICKS: u64 = 0xffff_ffff_ffff_ffff;

/// A point on the local monotonic clock, in nanosecond ticks.
///
/// Two timestamps produced on the same host are strictly orderable by their
/// tick counts; the sample cache relies on this for key uniqueness.
#[derive(Clone, Copy, PartialEq, Eq, Structural, Debug, Hash)]
pub struct Timestamp {
    pub ticks: u64,
}

impl Timestamp {
    pub open spec fn spec_is_valid(self) -> bool {
        self.ticks != TIME_INVALID_TICKS
    }

    pub fn new(ticks: u64) -> (t: Timestamp)
        ensures
            t.ticks == ticks,
    {
        Timestamp { ticks }
    }

    /// The distinguished invalid time.
    pub fn time_invalid() -> (t: Timestamp)
        ensures
            t.ticks == TIME_INVALID_TICKS,
            !t.spec_is_valid(),
    {
        Timestamp { ticks: TIME_INVALID_TICKS }
    }

    pub fn is_valid(&self) -> (r: bool)
        ensures
            r == self.spec_is_valid(),
    {
        self.ticks != TIME_INVALID_TICKS
    }

    /// Span from `earlier` up to `self` on the same clock.
    pub fn duration_since(&self, earlier: &Timestamp) -> (d: Duration)
        requires
            earlier.ticks <= self.ticks,
        ensures
            d.ticks == self.ticks - earlier.ticks,
    {
        Duration { ticks: self.ticks - earlier.ticks }
    }
}

/// A nanosecond span; the all-ones value stands for an infinite lease.
#[derive(Clone, Copy, PartialEq, Eq, Structural, Debug, Hash)]
pub struct Duration {
    pub ticks: u64,
}

impl Duration {
    pub open spec fn spec_is_infinite(self) -> bool {
        self.ticks == DURATION_INFINITE_TICKS
    }

    pub fn new(ticks: u64) -> (d: Duration)
        ensures
            d.ticks == ticks,
    {
        Duration { ticks }
    }

    pub fn zero() -> (d: Duration)
        ensures
            d.ticks == 0,
    {
        Duration { ticks: 0 }
    }

    pub fn infinite() -> (d: Duration)
        ensures
            d.ticks == DURATION_INFINITE_TICKS,
            d.spec_is_infinite(),
    {
        Duration { ticks: DURATION_INFINITE_TICKS }
    }

    pub fn from_secs(secs: u32) -> (d: Duration)
        ensures
            d.ticks == secs * 1_000_000_000u64,
    {
        Duration { ticks: (secs as u64) * 1_000_000_000u64 }
    }

    pub fn from_millis(millis: u32) -> (d: Duration)
        ensures
            d.ticks == millis * 1_000_000u64,
    {
        Duration { ticks: (millis as u64) * 1_000_000u64 }
    }

    /// A third of the span, rounded toward zero; liveliness pacing compares
    /// elapsed time against a third of the shortest lease.
    pub fn third(&self) -> (d: Duration)
        ensures
            d.ticks == self.ticks / 3,
    {
        Duration { ticks: self.ticks / 3 }
    }
}

} // verus!

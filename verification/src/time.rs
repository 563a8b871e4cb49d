//! Points in time and spans between them.

use vstd::prelude::*;

verus! {

/// A span of time in nanoseconds. A point in time is the span since some fixed start.
#[derive(Clone, Copy, Debug, PartialEq, Eq, Structural)]
pub struct Duration {
    pub nanos: u128,
}

impl Duration {
    /// The number of nanoseconds.
    pub open spec fn ns(&self) -> int {
        self.nanos as int
    }

    pub fn from_secs(secs: u64) -> (d: Duration)
        ensures
            d.ns() == secs * 1_000_000_000,
    {
        Duration { nanos: secs as u128 * 1_000_000_000 }
    }

    pub fn from_millis(millis: u64) -> (d: Duration)
        ensures
            d.ns() == millis * 1_000_000,
    {
        Duration { nanos: millis as u128 * 1_000_000 }
    }

    /// The span from `earlier` to `self`; nothing when `earlier` is the later one.
    pub fn since(&self, earlier: Duration) -> (d: Duration)
        ensures
            d.ns() == elapsed(self.ns(), earlier.ns()),
    {
        if self.nanos >= earlier.nanos {
            Duration { nanos: self.nanos - earlier.nanos }
        } else {
            Duration { nanos: 0 }
        }
    }

    /// The point in time `span` after `self`; the last one that there is when it lies beyond.
    pub fn plus(&self, span: Duration) -> (d: Duration)
        ensures
            d.ns() == later(self.ns(), span.ns()),
    {
        Duration { nanos: self.nanos.saturating_add(span.nanos) }
    }

    pub fn at_least(&self, other: Duration) -> (r: bool)
        ensures
            r == (self.ns() >= other.ns()),
    {
        self.nanos >= other.nanos
    }

    pub fn exceeds(&self, other: Duration) -> (r: bool)
        ensures
            r == (self.ns() > other.ns()),
    {
        self.nanos > other.nanos
    }
}

/// The point in time `span` nanoseconds after `at`, as far as it can be told.
pub open spec fn later(at: int, span: int) -> int {
    if at + span > u128::MAX {
        u128::MAX as int
    } else {
        at + span
    }
}

/// The nanoseconds from `earlier` to `now`, never negative.
pub open spec fn elapsed(now: int, earlier: int) -> int {
    if now >= earlier {
        now - earlier
    } else {
        0
    }
}

/// Spans add up: what lies a span after a point in time is that span away from it, and the point
/// itself no time after what comes later. A second is a thousand milliseconds.
pub proof fn law_spans_add_up(
    at: Duration,
    span: Duration,
    then: Duration,
    away: Duration,
    back: Duration,
    n: u64,
    seconds: Duration,
    millis: Duration,
    least: bool,
    more: bool,
)
    requires
        at.ns() + span.ns() <= u128::MAX,
        n <= u64::MAX / 1000,
        call_ensures(Duration::plus, (&at, span), then),
        call_ensures(Duration::since, (&then, at), away),
        call_ensures(Duration::since, (&at, then), back),
        call_ensures(Duration::from_secs, (n,), seconds),
        call_ensures(Duration::from_millis, ((n * 1000) as u64,), millis),
        call_ensures(Duration::at_least, (&then, at), least),
        call_ensures(Duration::exceeds, (&then, at), more),
    ensures
        away.nanos == span.nanos,
        back.nanos == 0,
        then.nanos == at.nanos + span.nanos,
        seconds.nanos == millis.nanos && seconds.nanos == n * 1_000_000_000,
        least,
        more <==> span.nanos > 0,
{
}

} // verus!

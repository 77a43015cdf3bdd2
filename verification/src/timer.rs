//! Wall-clock measurement for a run and for each download.

use std::time::Duration;
use std::time::Instant;
use vstd::prelude::*;

verus! {

/// `std::time::Instant`, carried through as an opaque point in time.
#[verifier::external_type_specification]
#[verifier::external_body]
pub struct ExInstant(Instant);

/// `Instant::now` reads the clock: nothing is promised of the point it returns.
pub assume_specification[ Instant::now ]() -> (now: Instant);

/// `Instant::elapsed` measures against the clock: nothing is promised of the
/// duration it returns.
pub assume_specification[ Instant::elapsed ](start: &Instant) -> (passed: Duration);

/// `Duration::as_secs` gives the whole seconds of a duration; which duration
/// an opaque value holds is not known, so nothing is promised of the number.
pub assume_specification[ Duration::as_secs ](duration: &Duration) -> (secs: u64);

/// `Duration::subsec_nanos` gives the part of a duration below one second, in
/// nanoseconds: always less than one billion.
pub assume_specification[ Duration::subsec_nanos ](duration: &Duration) -> (nanos: u32)
    ensures
        nanos < 1_000_000_000,
;

/// A measured span of time: whole seconds and the nanoseconds beyond them.
#[derive(Clone, Copy, Debug, PartialEq, Eq, Structural)]
pub struct Elapsed {
    pub secs: u64,
    pub nanos: u32,
}

impl Elapsed {
    /// The span in nanoseconds.
    pub open spec fn total_nanos(self) -> nat {
        (self.secs * 1_000_000_000 + self.nanos) as nat
    }

    /// The empty span.
    pub fn zero() -> (e: Elapsed)
        ensures
            e.secs == 0,
            e.nanos == 0,
    {
        Elapsed { secs: 0, nanos: 0 }
    }
}

/// A sum of measured spans. The whole seconds and the nanosecond parts of
/// the spans are added up apart, so that the sum is exact whatever the spans
/// hold.
#[derive(Clone, Copy, Debug, PartialEq, Eq, Structural)]
pub struct TimeSum {
    pub secs: u128,
    pub nanos: u128,
}

impl TimeSum {
    /// The sum in nanoseconds.
    pub open spec fn total_nanos(self) -> nat {
        (self.secs * 1_000_000_000 + self.nanos) as nat
    }

    /// The sum with one more span in it.
    pub open spec fn with(self, span: Elapsed) -> TimeSum {
        TimeSum { secs: (self.secs + span.secs) as u128, nanos: (self.nanos + span.nanos) as u128 }
    }

    /// The sum of no spans.
    pub fn zero() -> (sum: TimeSum)
        ensures
            sum.secs == 0,
            sum.nanos == 0,
    {
        TimeSum { secs: 0, nanos: 0 }
    }

    /// Adds a span to the sum.
    pub fn plus(self, span: Elapsed) -> (sum: TimeSum)
        requires
            self.secs + span.secs <= u128::MAX,
            self.nanos + span.nanos <= u128::MAX,
        ensures
            sum == self.with(span),
            sum.total_nanos() == self.total_nanos() + span.total_nanos(),
    {
        TimeSum { secs: self.secs + span.secs as u128, nanos: self.nanos + span.nanos as u128 }
    }
}

/// A stopwatch that starts when it is made.
pub struct Timer {
    instant: Instant,
}

impl Timer {
    /// Starts a stopwatch at the present moment.
    pub fn new() -> Timer {
        Timer { instant: Instant::now() }
    }

    /// The time since the stopwatch was started.
    pub fn elapsed(&self) -> (e: Elapsed)
        ensures
            e.nanos < 1_000_000_000,
    {
        let passed = self.instant.elapsed();
        Elapsed { secs: passed.as_secs(), nanos: passed.subsec_nanos() }
    }
}

} // verus!

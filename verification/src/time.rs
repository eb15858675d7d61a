//! Spans of time, points in time, and the clock that gives them.
//!
//! A [`Duration`] is a number of nanoseconds. An [`Instant`] is the number of
//! nanoseconds that a [`Clock`] has run, so that the instants of one clock can
//! be compared and subtracted.
use vstd::prelude::*;

verus! {

/// Nanoseconds in a second.
pub const NANOS_PER_SEC: u128 = 1_000_000_000;

/// Nanoseconds in a millisecond.
pub const NANOS_PER_MILLI: u128 = 1_000_000;

/// A span of time; its view is its length in nanoseconds.
#[derive(Debug, Clone, Copy, PartialEq, Eq, Structural, PartialOrd, Ord, Hash)]
pub struct Duration {
    pub nanos: u128,
}

impl View for Duration {
    type V = nat;

    open spec fn view(&self) -> nat {
        self.nanos as nat
    }
}

/// `a - b`, or zero where `b` is the greater.
pub open spec fn minus_to_zero(a: nat, b: nat) -> nat {
    if a >= b {
        (a - b) as nat
    } else {
        0
    }
}

/// What is taken away and what is left make the whole, and nothing is left where there is
/// not enough.
pub proof fn law_minus_to_zero(a: nat, b: nat)
    ensures
        b <= a ==> minus_to_zero(a, b) + b == a,
        a <= b ==> minus_to_zero(a, b) == 0,
{
}

impl Duration {
    /// The span of `nanos` nanoseconds.
    pub fn from_nanos(nanos: u128) -> (d: Self)
        ensures
            d@ == nanos,
    {
        Duration { nanos }
    }

    /// The span of `millis` milliseconds.
    pub fn from_millis(millis: u64) -> (d: Self)
        ensures
            d@ == millis * NANOS_PER_MILLI,
    {
        Duration { nanos: millis as u128 * NANOS_PER_MILLI }
    }

    /// The span of `secs` seconds.
    pub fn from_secs(secs: u64) -> (d: Self)
        ensures
            d@ == secs * NANOS_PER_SEC,
    {
        Duration { nanos: secs as u128 * NANOS_PER_SEC }
    }

    /// How much longer than `other` the span is; zero where it is not longer.
    pub fn saturating_sub(self, other: Duration) -> (d: Self)
        ensures
            d@ == minus_to_zero(self@, other@),
    {
        if self.nanos >= other.nanos {
            Duration { nanos: self.nanos - other.nanos }
        } else {
            Duration { nanos: 0 }
        }
    }
}

/// A point in time; its view is the number of nanoseconds that its clock has
/// run by then.
#[derive(Debug, Clone, Copy, PartialEq, Eq, Structural, PartialOrd, Ord, Hash)]
pub struct Instant {
    pub nanos: u128,
}

impl View for Instant {
    type V = nat;

    open spec fn view(&self) -> nat {
        self.nanos as nat
    }
}

impl Instant {
    /// The instant at which the clock has run for `elapsed`.
    pub fn at(elapsed: Duration) -> (t: Self)
        ensures
            t@ == elapsed@,
    {
        Instant { nanos: elapsed.nanos }
    }

    /// The time from `earlier` to this instant; zero where `earlier` is the
    /// later of the two.
    pub fn duration_since(self, earlier: Instant) -> (d: Duration)
        ensures
            d@ == minus_to_zero(self@, earlier@),
    {
        if self.nanos >= earlier.nanos {
            Duration { nanos: self.nanos - earlier.nanos }
        } else {
            Duration { nanos: 0 }
        }
    }
}

/// The standard library's monotonic clock reading.
#[verifier::external_type_specification]
#[verifier::external_body]
pub struct ExMonotonic(std::time::Instant);

/// `std::time::Instant::now` reads the monotonic clock. Nothing is claimed of
/// the reading.
pub assume_specification[ std::time::Instant::now ]() -> (r: std::time::Instant)
;

/// `std::time::Instant::elapsed` gives the time that has passed since the
/// reading, here as a count of nanoseconds. Nothing is claimed of the count.
#[verifier::external_body]
fn nanos_since(reading: &std::time::Instant) -> (nanos: u128)
{
    reading.elapsed().as_nanos()
}

/// A running clock. Its view is its latest reading, in nanoseconds since it was
/// started.
pub struct Clock {
    started: std::time::Instant,
    latest: Instant,
    reads: Ghost<nat>,
}

impl View for Clock {
    type V = nat;

    closed spec fn view(&self) -> nat {
        self.latest@
    }
}

impl Clock {
    /// How many times the clock was read.
    pub closed spec fn reads(&self) -> nat {
        self.reads@
    }

    /// A clock that starts now.
    pub fn start() -> (clock: Clock)
        ensures
            clock@ == 0,
            clock.reads() == 0,
    {
        Clock {
            started: std::time::Instant::now(),
            latest: Instant { nanos: 0 },
            reads: Ghost(0),
        }
    }

    /// Take a reading of `nanos` nanoseconds since the start. A reading before an
    /// earlier one counts as that one.
    pub fn note(&mut self, nanos: u128) -> (t: Instant)
        ensures
            t@ == final(self)@,
            final(self)@ == if nanos > old(self)@ {
                nanos as nat
            } else {
                old(self)@
            },
            final(self).reads() == old(self).reads(),
    {
        if nanos > self.latest.nanos {
            self.latest = Instant { nanos };
        }
        self.latest
    }

    /// Read the clock. No reading is before an earlier one.
    pub fn now(&mut self) -> (t: Instant)
        ensures
            t@ == final(self)@,
            final(self)@ >= old(self)@,
            final(self).reads() == old(self).reads() + 1,
    {
        let nanos: u128 = nanos_since(&self.started);
        self.reads = Ghost((self.reads@ + 1) as nat);
        self.note(nanos)
    }
}

} // verus!

//! Time: instants count the nanoseconds since the start of a clock.
use vstd::prelude::*;

verus! {

/// Nanoseconds in a millisecond.
pub const NANOS_PER_MILLI: u128 = 1_000_000;

/// The latest reading of a clock: the longest span that
/// `std::time::Duration` can express.
pub const MAX_READING: u128 = 18_446_744_073_709_551_615_999_999_999;

/// A point in time, in nanoseconds since the start of a clock.
#[derive(Debug, Clone, Copy, PartialEq, Eq, Structural)]
pub struct Instant {
    pub nanos: u128,
}

impl Instant {
    /// Whether a clock can show this instant.
    pub open spec fn is_reading(self) -> bool {
        self.nanos <= MAX_READING
    }

    /// The instant `ms` milliseconds later.
    pub open spec fn later(self, ms: int) -> Instant {
        Instant { nanos: (self.nanos + ms * NANOS_PER_MILLI) as u128 }
    }

    /// The whole milliseconds since `earlier`, zero where it lies ahead.
    pub open spec fn millis_after(self, earlier: Instant) -> int {
        if self.nanos <= earlier.nanos {
            0
        } else {
            (self.nanos - earlier.nanos) / (NANOS_PER_MILLI as int)
        }
    }

    /// The instant `ms` milliseconds after a start of a clock.
    pub fn from_millis(ms: u64) -> (r: Instant)
        ensures
            r.nanos == ms * NANOS_PER_MILLI,
            r.is_reading(),
    {
        Instant { nanos: ms as u128 * NANOS_PER_MILLI }
    }

    /// The instant `ms` milliseconds later.
    pub fn plus_millis(self, ms: u64) -> (r: Instant)
        requires
            self.is_reading(),
        ensures
            r == self.later(ms as int),
            r.nanos == self.nanos + ms * NANOS_PER_MILLI,
    {
        Instant { nanos: self.nanos + ms as u128 * NANOS_PER_MILLI }
    }

    /// The whole milliseconds since `earlier`, zero where it lies ahead.
    pub fn saturating_millis_since(self, earlier: Instant) -> (r: u128)
        ensures
            r == self.millis_after(earlier),
    {
        if self.nanos <= earlier.nanos {
            0
        } else {
            (self.nanos - earlier.nanos) / NANOS_PER_MILLI
        }
    }

    /// Whether at least `ms` milliseconds have passed since `earlier`.
    pub open spec fn at_least_after(self, earlier: Instant, ms: int) -> bool {
        self.nanos >= earlier.nanos + ms * NANOS_PER_MILLI
    }

    /// Whether at least `ms` milliseconds have passed since `earlier`.
    pub fn reached(self, earlier: Instant, ms: u64) -> (r: bool)
        ensures
            r == self.at_least_after(earlier, ms as int),
    {
        if self.nanos < earlier.nanos {
            false
        } else {
            self.nanos - earlier.nanos >= ms as u128 * NANOS_PER_MILLI
        }
    }

    /// Whether at least `secs` seconds have passed since `earlier`.
    pub fn reached_secs(self, earlier: Instant, secs: u64) -> (r: bool)
        ensures
            r == self.at_least_after(earlier, 1000 * secs),
    {
        if self.nanos < earlier.nanos {
            false
        } else {
            self.nanos - earlier.nanos >= secs as u128 * 1000 * NANOS_PER_MILLI
        }
    }
}

/// `std::time::Instant`: a moment of the system's monotonic clock. Nothing is
/// claimed of it.
#[verifier::external_type_specification]
#[verifier::external_body]
pub struct ExStdInstant(std::time::Instant);

/// `std::time::Instant::now`: the present, of which nothing is claimed.
#[verifier::external_body]
fn present() -> std::time::Instant {
    std::time::Instant::now()
}

/// `std::time::Instant::elapsed`, in nanoseconds: the time that has passed
/// since `origin`. All that is claimed is that it is a `Duration`, so at most
/// the longest one.
#[verifier::external_body]
fn nanos_since(origin: &std::time::Instant) -> (r: u128)
    ensures
        r <= MAX_READING,
{
    origin.elapsed().as_nanos()
}

/// A clock that was started at some moment.
#[derive(Debug)]
pub struct Clock {
    origin: std::time::Instant,
}

impl Clock {
    /// A clock that starts now.
    pub fn start() -> Clock {
        Clock { origin: present() }
    }

    /// The time that the clock shows.
    pub fn now(&self) -> (r: Instant)
        ensures
            r.is_reading(),
    {
        Instant { nanos: nanos_since(&self.origin) }
    }
}

/// Instants count nanoseconds: a millisecond is a million of them, and a span
/// is whole milliseconds, rounded down, or none where it would be negative.
pub proof fn law_instants_count_nanoseconds(at: Instant, from: Instant, ms: u64)
    ensures
        at.is_reading() ==> at.later(ms as int).nanos == at.nanos + ms * 1_000_000,
        at.at_least_after(from, ms as int) <==> at.nanos >= from.nanos + ms * 1_000_000,
        at.nanos <= from.nanos ==> at.millis_after(from) == 0,
        at.nanos > from.nanos ==> {
            let span = at.nanos - from.nanos;
            1_000_000 * at.millis_after(from) <= span < 1_000_000 * (at.millis_after(from) + 1)
        },
{
}

} // verus!

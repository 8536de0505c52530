//! Clocks and spans of time.
//!
//! The wall clock is for comparing with a venue's own timestamps. Spans inside the process are
//! measured on a [`Clock`], which never goes back.

use vstd::prelude::*;

verus! {

/// `std::time::Instant`, a reading of the monotonic clock.
#[verifier::external_type_specification]
#[verifier::external_body]
pub struct ExInstant(std::time::Instant);

/// A reading of a [`Clock`]: the nanoseconds since it was started.
#[derive(Clone, Copy, Debug, PartialEq, Eq, Structural)]
pub struct Instant {
    pub nanos: u64,
}

/// A span of time.
#[derive(Clone, Copy, Debug, PartialEq, Eq, Structural)]
pub struct Duration {
    pub nanos: u128,
}

/// A monotonic clock.
#[derive(Clone, Copy, Debug)]
pub struct Clock {
    origin: std::time::Instant,
}

/// `std::time::Instant::now`. Nothing is claimed of the reading.
#[verifier::external_body]
fn outside_now() -> (r: std::time::Instant) {
    std::time::Instant::now()
}

/// `std::time::Instant::elapsed`, in whole nanoseconds. Nothing is claimed of the reading.
#[verifier::external_body]
fn outside_elapsed_nanos(origin: &std::time::Instant) -> (r: u64) {
    origin.elapsed().as_nanos() as u64
}

/// The milliseconds since the UNIX epoch on the wall clock, by `std::time::SystemTime::now`; 0
/// before the epoch. Nothing is claimed of the reading.
#[verifier::external_body]
pub fn now_wall_ms() -> (r: u64) {
    std::time::SystemTime::now()
        .duration_since(std::time::UNIX_EPOCH)
        .map(|d| d.as_millis() as u64)
        .unwrap_or(0)
}

/// The nanoseconds of the current second on the wall clock, by `std::time::SystemTime::now` and
/// `std::time::Duration::subsec_nanos`; 0 before the epoch. Claimed: there are fewer than 10^9.
#[verifier::external_body]
pub(crate) fn wall_subsec_nanos() -> (r: u32)
    ensures
        r < 1_000_000_000,
{
    std::time::SystemTime::now()
        .duration_since(std::time::UNIX_EPOCH)
        .map(|d| d.subsec_nanos())
        .unwrap_or(0)
}

impl Clock {
    /// A clock that starts now.
    pub fn start() -> Clock {
        Clock { origin: outside_now() }
    }

    /// The reading now.
    pub fn now(&self) -> Instant {
        Instant { nanos: outside_elapsed_nanos(&self.origin) }
    }
}

/// `later - earlier`, or zero where `earlier` is the later one.
pub open spec fn span_since(later: Instant, earlier: Instant) -> Duration {
    Duration {
        nanos: if later.nanos >= earlier.nanos {
            (later.nanos - earlier.nanos) as u128
        } else {
            0
        },
    }
}

impl Instant {
    /// The span since `earlier`, or zero where `earlier` is the later one.
    pub fn saturating_duration_since(&self, earlier: Instant) -> (r: Duration)
        ensures
            r == span_since(*self, earlier),
    {
        if self.nanos >= earlier.nanos {
            Duration { nanos: (self.nanos - earlier.nanos) as u128 }
        } else {
            Duration { nanos: 0 }
        }
    }

    /// The reading `span` later, at most the last one that a clock can give.
    pub fn saturating_add(&self, span: Duration) -> (r: Instant)
        ensures
            r.nanos == if self.nanos + span.nanos <= u64::MAX {
                self.nanos + span.nanos
            } else {
                u64::MAX as int
            },
    {
        if span.nanos <= (u64::MAX - self.nanos) as u128 {
            Instant { nanos: self.nanos + span.nanos as u64 }
        } else {
            Instant { nanos: u64::MAX }
        }
    }
}

impl Duration {
    /// A span of `secs` seconds.
    pub fn from_secs(secs: u64) -> (r: Duration)
        ensures
            r.nanos == secs * 1_000_000_000,
    {
        Duration { nanos: secs as u128 * 1_000_000_000 }
    }

    /// A span of `millis` milliseconds.
    pub fn from_millis(millis: u64) -> (r: Duration)
        ensures
            r.nanos == millis * 1_000_000,
    {
        Duration { nanos: millis as u128 * 1_000_000 }
    }

    /// The whole microseconds in the span.
    pub fn as_micros(&self) -> (r: u128)
        ensures
            r == self.nanos / 1000,
    {
        self.nanos / 1000
    }

    /// The whole milliseconds in the span.
    pub fn as_millis(&self) -> (r: u128)
        ensures
            r == self.nanos / 1_000_000,
    {
        self.nanos / 1_000_000
    }

    /// The whole seconds in the span.
    pub fn as_secs(&self) -> (r: u128)
        ensures
            r == self.nanos / 1_000_000_000,
    {
        self.nanos / 1_000_000_000
    }

    /// Whether the span is shorter than `other`.
    pub fn is_less(&self, other: Duration) -> (r: bool)
        ensures
            r == (self.nanos < other.nanos),
    {
        self.nanos < other.nanos
    }
}

/// The span since an earlier reading takes that reading to the later one, and spans add up; the wrong
/// way round there is none.
pub proof fn law_spans_add_up(a: Instant, b: Instant, c: Instant)
    requires
        a.nanos <= b.nanos <= c.nanos,
    ensures
        a.nanos + span_since(b, a).nanos == b.nanos,
        span_since(b, a).nanos + span_since(c, b).nanos == span_since(c, a).nanos,
        span_since(a, b).nanos == 0,
{
}

} // verus!

//! A brake on repeated warnings.

use vstd::prelude::*;

use crate::text_map::TextMap;
use crate::time;
use crate::time::{Clock, Duration, Instant};

verus! {

/// When a key was last let through, and how often it was held back since.
#[derive(Clone, Copy, Debug, PartialEq, Eq, Structural)]
pub struct Passed {
    pub at: Instant,
    pub suppressed: u64,
}

/// Lets each key through at most once in a given span. A warning may be due on every message while
/// something is wrong; without this the log would grow without bound.
pub struct RateLimiter {
    min_interval: Duration,
    clock: Clock,
    passed: TextMap<Passed>,
}

impl View for RateLimiter {
    type V = Map<Seq<char>, Passed>;

    closed spec fn view(&self) -> Map<Seq<char>, Passed> {
        self.passed@
    }
}

/// Whether `key` is held back at `now`: it was let through less than `min_interval` before.
pub open spec fn held_back(
    passed: Map<Seq<char>, Passed>,
    key: Seq<char>,
    now: Instant,
    min_interval: Duration,
) -> bool {
    passed.contains_key(key) && time::span_since(now, passed[key].at).nanos < min_interval.nanos
}

/// How often `key` was held back since it was last let through.
pub open spec fn held_back_count(passed: Map<Seq<char>, Passed>, key: Seq<char>) -> u64 {
    if passed.contains_key(key) {
        passed[key].suppressed
    } else {
        0
    }
}

/// The table after `key` has come up at `now`.
pub open spec fn after(
    passed: Map<Seq<char>, Passed>,
    key: Seq<char>,
    now: Instant,
    min_interval: Duration,
) -> Map<Seq<char>, Passed> {
    if held_back(passed, key, now, min_interval) {
        let p = passed[key];
        passed.insert(key, Passed { at: p.at, suppressed: p.suppressed.saturating_add(1) })
    } else {
        passed.insert(key, Passed { at: now, suppressed: 0 })
    }
}

/// What is said when `key` comes up at `now`: nothing while it is held back, else how often it was.
pub open spec fn answer(
    passed: Map<Seq<char>, Passed>,
    key: Seq<char>,
    now: Instant,
    min_interval: Duration,
) -> Option<u64> {
    if held_back(passed, key, now, min_interval) {
        None
    } else {
        Some(held_back_count(passed, key))
    }
}

impl RateLimiter {
    /// The least span between two passes of a key.
    pub closed spec fn interval(self) -> Duration {
        self.min_interval
    }

    /// A limiter that lets each key through once in `min_interval`.
    pub fn new(min_interval: Duration) -> (r: RateLimiter)
        ensures
            r.interval() == min_interval,
            r@ == Map::<Seq<char>, Passed>::empty(),
    {
        RateLimiter { min_interval, clock: Clock::start(), passed: TextMap::new() }
    }

    /// Asks for `key` to be let through now: `Some` of how often it was held back before, or `None`.
    pub fn allow(&mut self, key: &str) -> (r: Option<u64>)
        ensures
            final(self).interval() == old(self).interval(),
            !old(self)@.contains_key(key@) ==> r == Some(0u64),
            r matches Some(n) ==> n == held_back_count(old(self)@, key@),
            exists|now: Instant|
                {
                    &&& final(self)@ == #[trigger] after(
                        old(self)@,
                        key@,
                        now,
                        old(self).interval(),
                    )
                    &&& r == answer(old(self)@, key@, now, old(self).interval())
                },
    {
        let now = self.clock.now();
        self.allow_at(key, now)
    }

    /// Asks for `key` to be let through at `now`: `Some` of how often it was held back before, or
    /// `None`.
    pub fn allow_at(&mut self, key: &str, now: Instant) -> (r: Option<u64>)
        ensures
            final(self).interval() == old(self).interval(),
            final(self)@ == after(old(self)@, key@, now, old(self).interval()),
            r == answer(old(self)@, key@, now, old(self).interval()),
    {
        let known = match self.passed.get(key) {
            Some(p) => Some(*p),
            None => None,
        };
        match known {
            Some(p) => {
                if now.saturating_duration_since(p.at).is_less(self.min_interval) {
                    self.passed.set(
                        key,
                        Passed { at: p.at, suppressed: p.suppressed.saturating_add(1) },
                    );
                    return None;
                }
                self.passed.set(key, Passed { at: now, suppressed: 0 });
                Some(p.suppressed)
            },
            None => {
                self.passed.set(key, Passed { at: now, suppressed: 0 });
                Some(0)
            },
        }
    }
}

/// What becomes of one key says nothing about another.
pub proof fn law_keys_are_independent(
    passed: Map<Seq<char>, Passed>,
    key: Seq<char>,
    other: Seq<char>,
    now: Instant,
    later: Instant,
    min_interval: Duration,
)
    requires
        key != other,
    ensures
        answer(after(passed, key, now, min_interval), other, later, min_interval) == answer(
            passed,
            other,
            later,
            min_interval,
        ),
{
}

/// A key that was let through is held back until the interval is over, and then let through again
/// with the count of the times that it was held back.
pub proof fn law_held_back_until_the_interval_is_over(
    passed: Map<Seq<char>, Passed>,
    key: Seq<char>,
    first: Instant,
    later: Instant,
    min_interval: Duration,
)
    requires
        answer(passed, key, first, min_interval) is Some,
        first.nanos <= later.nanos,
    ensures
        answer(after(passed, key, first, min_interval), key, later, min_interval) is None
            <==> later.nanos - first.nanos < min_interval.nanos,
        answer(after(passed, key, first, min_interval), key, later, min_interval) is Some
            ==> answer(after(passed, key, first, min_interval), key, later, min_interval) == Some(
            0u64,
        ),
{
}

/// A key that never came up is let through. While it is held back, each time is counted and the time
/// of its last pass stays; when it is let through, the count is told and starts anew from that time.
pub proof fn law_held_back_keys_are_counted(
    passed: Map<Seq<char>, Passed>,
    key: Seq<char>,
    now: Instant,
    min_interval: Duration,
)
    ensures
        ({
            let table = after(passed, key, now, min_interval);
            let said = answer(passed, key, now, min_interval);
            &&& !passed.contains_key(key) ==> said == Some(0u64)
            &&& table.contains_key(key)
            &&& said is None ==> passed.contains_key(key) && table[key].at == passed[key].at && (
            passed[key].suppressed < u64::MAX ==> table[key].suppressed == passed[key].suppressed
                + 1)
            &&& said is Some ==> table[key].at == now && table[key].suppressed == 0
            &&& said matches Some(n) ==> (passed.contains_key(key) ==> n == passed[key].suppressed)
            &&& passed.contains_key(key) && now.nanos >= passed[key].at.nanos ==> (said is None
                <==> now.nanos - passed[key].at.nanos < min_interval.nanos)
        }),
{
}

} // verus!

//! Waiting between attempts to connect.

use vstd::arithmetic::power2;
use vstd::prelude::*;

use crate::time;
use crate::time::Duration;

verus! {

/// Delays that double from attempt to attempt up to a limit, spread by up to a fifth so that
/// connections that broke together are not all made anew at once.
#[derive(Clone, Copy, Debug)]
pub struct Backoff {
    base_delay_ms: u64,
    max_delay_ms: u64,
    max_attempts: u32,
    attempt: u32,
}

/// How a backoff is set up and how far it has come.
pub struct Progress {
    pub base_ms: nat,
    pub max_ms: nat,
    pub max_attempts: u32,
    pub attempt: u32,
}

impl View for Backoff {
    type V = Progress;

    closed spec fn view(&self) -> Progress {
        Progress {
            base_ms: self.base_delay_ms as nat,
            max_ms: self.max_delay_ms as nat,
            max_attempts: self.max_attempts,
            attempt: self.attempt,
        }
    }
}

impl Progress {
    /// How a backoff starts that is set up with the given delays and limit.
    pub open spec fn of_policy(base_delay_ms: u64, max_delay_ms: u64, max_attempts: u32) -> Progress {
        let base_ms = if base_delay_ms == 0 { 1nat } else { base_delay_ms as nat };
        Progress {
            base_ms,
            max_ms: if max_delay_ms < base_ms { base_ms } else { max_delay_ms as nat },
            max_attempts,
            attempt: 0,
        }
    }

    /// Whether there are no more attempts. A limit of zero is none.
    pub open spec fn exhausted(self) -> bool {
        self.max_attempts != 0 && self.attempt >= self.max_attempts
    }

    /// The delay before the spreading: the base doubled once for each attempt before, up to the
    /// limit.
    pub open spec fn plain_delay_ms(self) -> nat {
        let doublings = if self.attempt <= 32 { self.attempt as nat } else { 32 };
        let scaled = self.base_ms * power2::pow2(doublings);
        if scaled <= self.max_ms {
            scaled
        } else {
            self.max_ms
        }
    }

    /// One attempt more. A full count stays as it is.
    pub open spec fn advanced(self) -> Progress {
        Progress { attempt: self.attempt.saturating_add(1), ..self }
    }
}

/// `ms` moved by `nanos % 41 - 20` per cent, that change rounded towards zero; one at least.
pub open spec fn spread_ms(ms: nat, nanos: nat) -> nat {
    let pct = nanos % 41 - 20;
    let moved = if pct >= 0 {
        ms + (ms * pct) / 100
    } else {
        ms - (ms * (-pct)) / 100
    };
    if ms == 0 {
        0
    } else if moved < 1 {
        1
    } else if moved > u64::MAX {
        u64::MAX as nat
    } else {
        moved as nat
    }
}

/// `ms` moved by up to a fifth, by the nanoseconds `nanos` of a clock; one at least.
pub fn apply_jitter(ms: u64, nanos: u32) -> (r: u64)
    ensures
        r == spread_ms(ms as nat, nanos as nat),
{
    if ms == 0 {
        return 0;
    }
    let pct: i128 = (nanos % 41) as i128 - 20;
    let wide: i128 = ms as i128;
    assert(-20 <= pct <= 20);
    assert(-20 * wide <= wide * pct <= 20 * wide) by (nonlinear_arith)
        requires
            -20 <= pct <= 20,
            wide >= 0,
    ;
    let moved: i128 = if pct >= 0 {
        wide + wide * pct / 100
    } else {
        assert(wide * (-pct) == -(wide * pct)) by (nonlinear_arith);
        wide - wide * (-pct) / 100
    };
    if moved < 1 {
        1
    } else if moved > u64::MAX as i128 {
        u64::MAX
    } else {
        moved as u64
    }
}

impl Backoff {
    /// Whether the delays are in order.
    pub open spec fn wf(self) -> bool {
        1 <= self@.base_ms <= self@.max_ms
    }

    /// Delays from `base_delay_ms` on, up to `max_delay_ms`. No more than `max_attempts` attempts;
    /// zero means that there is no limit.
    pub fn new(base_delay_ms: u64, max_delay_ms: u64, max_attempts: u32) -> (r: Backoff)
        ensures
            r.wf(),
            r@ == Progress::of_policy(base_delay_ms, max_delay_ms, max_attempts),
    {
        let base_delay_ms: u64 = if base_delay_ms == 0 { 1 } else { base_delay_ms };
        let max_delay_ms: u64 = if max_delay_ms < base_delay_ms {
            base_delay_ms
        } else {
            max_delay_ms
        };
        Backoff { base_delay_ms, max_delay_ms, max_attempts, attempt: 0 }
    }

    /// How many attempts were made.
    pub fn attempt(&self) -> (r: u32)
        ensures
            r == self@.attempt,
    {
        self.attempt
    }

    /// Starts over. To be called once a connection stands.
    pub fn reset(&mut self)
        requires
            old(self).wf(),
        ensures
            final(self).wf(),
            final(self)@ == (Progress { attempt: 0, ..old(self)@ }),
    {
        self.attempt = 0;
    }

    /// Whether there are no more attempts.
    pub fn is_exhausted(&self) -> (r: bool)
        ensures
            r == self@.exhausted(),
    {
        self.max_attempts != 0 && self.attempt >= self.max_attempts
    }

    fn plain_delay(&self) -> (r: u64)
        requires
            self.wf(),
        ensures
            r == self@.plain_delay_ms(),
    {
        let doublings: u32 = if self.attempt <= 32 { self.attempt } else { 32 };
        let mut ms: u64 = self.base_delay_ms;
        let mut i: u32 = 0;
        proof {
            power2::lemma2_to64();
            assert(self.base_delay_ms * power2::pow2(0) == self.base_delay_ms) by (nonlinear_arith)
                requires
                    power2::pow2(0) == 1,
            ;
        }
        while i < doublings
            invariant
                i <= doublings,
                1 <= self.base_delay_ms <= self.max_delay_ms,
                1 <= ms <= self.max_delay_ms,
                ms == if self.base_delay_ms * power2::pow2(i as nat) <= self.max_delay_ms {
                    self.base_delay_ms * power2::pow2(i as nat)
                } else {
                    self.max_delay_ms as int
                },
            decreases doublings - i,
        {
            proof {
                power2::lemma_pow2_unfold((i + 1) as nat);
                let p = power2::pow2(i as nat);
                let b = self.base_delay_ms;
                assert(b * (2 * p) == 2 * (b * p)) by (nonlinear_arith);
            }
            ms = if ms <= self.max_delay_ms / 2 {
                2 * ms
            } else {
                self.max_delay_ms
            };
            i += 1;
        }
        ms
    }

    /// The next delay where the clock shows `nanos` nanoseconds; `None` where there are no more
    /// attempts.
    pub fn next_delay_at(&mut self, nanos: u32) -> (r: Option<Duration>)
        requires
            old(self).wf(),
        ensures
            final(self).wf(),
            r is None <==> old(self)@.exhausted(),
            final(self)@ == if old(self)@.exhausted() {
                old(self)@
            } else {
                old(self)@.advanced()
            },
            r matches Some(delay) ==> delay.nanos == spread_ms(
                old(self)@.plain_delay_ms(),
                nanos as nat,
            ) * 1_000_000,
    {
        if self.is_exhausted() {
            return None;
        }
        let ms: u64 = apply_jitter(self.plain_delay(), nanos);
        self.attempt = self.attempt.saturating_add(1);
        Some(Duration::from_millis(ms))
    }

    /// The next delay; `None` where there are no more attempts. It lies within a fifth of the plain
    /// one.
    pub fn next_delay(&mut self) -> (r: Option<Duration>)
        requires
            old(self).wf(),
        ensures
            final(self).wf(),
            r is None <==> old(self)@.exhausted(),
            final(self)@ == if old(self)@.exhausted() {
                old(self)@
            } else {
                old(self)@.advanced()
            },
            r matches Some(delay) ==> exists|nanos: nat|
                nanos < 1_000_000_000 && delay.nanos == #[trigger] spread_ms(
                    old(self)@.plain_delay_ms(),
                    nanos,
                ) * 1_000_000,
    {
        let nanos: u32 = time::wall_subsec_nanos();
        self.next_delay_at(nanos)
    }
}

/// A delay is spread by no more than a fifth, to a millisecond, and is never nothing.
pub proof fn law_delays_are_spread_by_a_fifth(ms: nat, nanos: nat)
    requires
        1 <= ms <= u64::MAX,
    ensures
        spread_ms(ms, nanos) >= 1,
        5 * spread_ms(ms, nanos) >= 4 * ms,
        spread_ms(ms, nanos) == 1 || 5 * spread_ms(ms, nanos) <= 6 * ms,
{
    let pct = nanos % 41 - 20;
    assert(-20 * ms <= ms * pct <= 20 * ms) by (nonlinear_arith)
        requires
            -20 <= pct <= 20,
            ms >= 0,
    ;
    assert(ms * (-pct) == -(ms * pct)) by (nonlinear_arith);
}

/// Delays before the spreading never shrink from one attempt to the next, and stay between the base
/// and the limit.
pub proof fn law_delays_grow_to_the_limit(p: Progress)
    requires
        1 <= p.base_ms <= p.max_ms,
    ensures
        p.base_ms <= p.plain_delay_ms() <= p.max_ms,
        p.plain_delay_ms() <= p.advanced().plain_delay_ms(),
{
    let d = if p.attempt <= 32 { p.attempt as nat } else { 32 };
    let e = if p.attempt + 1 <= 32 { (p.attempt + 1) as nat } else { 32 };
    assert(p.advanced().attempt > 32 <==> p.attempt + 1 > 32);
    power2::lemma_pow2_pos(d);
    power2::lemma_pow2_pos(e);
    if d < e {
        power2::lemma_pow2_unfold(e);
    }
    let (x, y, b) = (power2::pow2(d), power2::pow2(e), p.base_ms);
    assert(b <= b * x) by (nonlinear_arith)
        requires
            x >= 1,
            b >= 1,
    ;
    assert(b * x <= b * y) by (nonlinear_arith)
        requires
            x <= y,
            b >= 1,
    ;
}

/// With a limit of `n` attempts, the attempts are used up once `n` were made, and not before.
pub proof fn law_attempts_are_limited(p: Progress)
    ensures
        p.max_attempts == 0 ==> !p.exhausted(),
        p.max_attempts > 0 ==> (p.exhausted() <==> p.attempt >= p.max_attempts),
        p.max_attempts > 0 ==> !(Progress { attempt: 0, ..p }).exhausted(),
{
}

/// The first delay is the base, and each one is twice the one before, up to the limit.
pub proof fn law_delays_double(p: Progress)
    requires
        1 <= p.base_ms <= p.max_ms,
    ensures
        p.attempt == 0 ==> p.plain_delay_ms() == p.base_ms,
        p.attempt < 32 ==> p.advanced().plain_delay_ms() == if 2 * p.plain_delay_ms() <= p.max_ms {
            2 * p.plain_delay_ms()
        } else {
            p.max_ms
        },
        p.advanced().attempt == p.attempt + 1 || p.attempt == u32::MAX,
        p.advanced().base_ms == p.base_ms && p.advanced().max_ms == p.max_ms,
        p.advanced().max_attempts == p.max_attempts,
{
    let b = p.base_ms;
    power2::lemma2_to64();
    if p.attempt == 0 {
        assert(b * power2::pow2(0) == b) by (nonlinear_arith)
            requires
                power2::pow2(0) == 1,
        ;
    }
    if p.attempt < 32 {
        let x = power2::pow2(p.attempt as nat);
        power2::lemma_pow2_unfold((p.attempt + 1) as nat);
        assert(b * (2 * x) == 2 * (b * x)) by (nonlinear_arith);
    }
}

/// The spreading takes off a fifth at one end of the clock's turn, adds a fifth at the other, leaves
/// the delay as it is in the middle, and grows in between.
pub proof fn law_spreading_turns_with_the_clock(ms: nat, nanos: nat, other: nat)
    requires
        1 <= ms <= u64::MAX,
    ensures
        nanos % 41 == 0 ==> spread_ms(ms, nanos) == ms - ms / 5,
        nanos % 41 == 20 ==> spread_ms(ms, nanos) == ms,
        nanos % 41 == 40 && ms + ms / 5 <= u64::MAX ==> spread_ms(ms, nanos) == ms + ms / 5,
        nanos % 41 <= other % 41 ==> spread_ms(ms, nanos) <= spread_ms(ms, other),
{
    let (p, q) = (nanos % 41 - 20, other % 41 - 20);
    assert((ms * 20) / 100 == ms / 5);
    assert(nanos % 41 == 20 ==> ms * p == 0) by (nonlinear_arith)
        requires
            p == nanos % 41 - 20,
    ;
    if p <= q {
        assert(ms * p <= ms * q) by (nonlinear_arith)
            requires
                p <= q,
        ;
        assert(ms * (-p) >= ms * (-q)) by (nonlinear_arith)
            requires
                p <= q,
        ;
        assert(p >= 0 ==> ms * p >= 0) by (nonlinear_arith);
        assert(q >= 0 ==> ms * q >= 0) by (nonlinear_arith);
        assert(p <= 0 ==> ms * (-p) >= 0) by (nonlinear_arith);
    }
}

/// A backoff starts without attempts, with the delays that are asked for: one millisecond at least,
/// and a limit that is not below the base.
pub proof fn law_policy_is_kept(base_delay_ms: u64, max_delay_ms: u64, max_attempts: u32)
    ensures
        ({
            let p = Progress::of_policy(base_delay_ms, max_delay_ms, max_attempts);
            &&& 1 <= p.base_ms <= p.max_ms
            &&& base_delay_ms >= 1 ==> p.base_ms == base_delay_ms
            &&& base_delay_ms == 0 ==> p.base_ms == 1
            &&& max_delay_ms >= p.base_ms ==> p.max_ms == max_delay_ms
            &&& max_delay_ms < p.base_ms ==> p.max_ms == p.base_ms
            &&& p.max_attempts == max_attempts
            &&& p.attempt == 0
        }),
{
}

} // verus!

//! The times at which a message passed the stages of the pipeline.

use vstd::prelude::*;

use crate::time;
use crate::time::{Clock, Duration, Instant};

verus! {

/// The times of one message.
///
/// Compare with the venue's time on the wall clock only, and measure inside the process on the
/// monotonic clock only: a correction of the wall clock would spoil a span measured on it.
#[derive(Clone, Copy, Debug, PartialEq, Eq, Structural)]
pub struct MessageTrace {
    /// When the venue says that it made the message (milliseconds since the epoch).
    pub exchange_ts_ms: Option<u64>,
    /// When the message came in, on the wall clock.
    pub received_wall_ms: u64,
    /// When the message came in, on the monotonic clock.
    pub received_instant: Instant,
    /// When the message had become a book.
    pub normalized_instant: Option<Instant>,
    /// When the price difference had been worked out.
    pub evaluated_instant: Option<Instant>,
}

impl MessageTrace {
    /// `received_wall_ms` less the venue's time.
    pub open spec fn exchange_delay_ms(self) -> Option<i64> {
        match self.exchange_ts_ms {
            Some(ts) => Some((self.received_wall_ms as i64).wrapping_sub(ts as i64)),
            None => None,
        }
    }

    /// The span from coming in to `at`.
    pub open spec fn span_to(self, at: Option<Instant>) -> Option<Duration> {
        match at {
            Some(at) => Some(time::span_since(at, self.received_instant)),
            None => None,
        }
    }

    /// The trace of a message that came in at the given times.
    pub fn received_at(received_instant: Instant, received_wall_ms: u64) -> (r: MessageTrace)
        ensures
            r == (MessageTrace {
                exchange_ts_ms: None,
                received_wall_ms,
                received_instant,
                normalized_instant: None,
                evaluated_instant: None,
            }),
    {
        MessageTrace {
            exchange_ts_ms: None,
            received_wall_ms,
            received_instant,
            normalized_instant: None,
            evaluated_instant: None,
        }
    }

    /// The trace of a message that comes in now. To be called before the message is parsed.
    pub fn on_receive(clock: &Clock) -> (r: MessageTrace)
        ensures
            r.exchange_ts_ms is None,
            r.normalized_instant is None,
            r.evaluated_instant is None,
    {
        let received_instant = clock.now();
        let received_wall_ms: u64 = time::now_wall_ms();
        MessageTrace::received_at(received_instant, received_wall_ms)
    }

    /// Notes the venue's own time.
    pub fn set_exchange_ts_ms(&mut self, ts: Option<u64>)
        ensures
            *final(self) == (MessageTrace { exchange_ts_ms: ts, ..*old(self) }),
    {
        self.exchange_ts_ms = ts;
    }

    /// Notes that the message had become a book at `at`.
    pub fn mark_normalized_at(&mut self, at: Instant)
        ensures
            *final(self) == (MessageTrace { normalized_instant: Some(at), ..*old(self) }),
    {
        self.normalized_instant = Some(at);
    }

    /// Notes that the message has become a book.
    pub fn mark_normalized(&mut self, clock: &Clock)
        ensures
            final(self).normalized_instant is Some,
            *final(self) == (MessageTrace {
                normalized_instant: final(self).normalized_instant,
                ..*old(self)
            }),
    {
        self.mark_normalized_at(clock.now());
    }

    /// Notes that the price difference had been worked out at `at`.
    pub fn mark_evaluated_at(&mut self, at: Instant)
        ensures
            *final(self) == (MessageTrace { evaluated_instant: Some(at), ..*old(self) }),
    {
        self.evaluated_instant = Some(at);
    }

    /// Notes that the price difference has been worked out.
    pub fn mark_evaluated(&mut self, clock: &Clock)
        ensures
            final(self).evaluated_instant is Some,
            *final(self) == (MessageTrace {
                evaluated_instant: final(self).evaluated_instant,
                ..*old(self)
            }),
    {
        self.mark_evaluated_at(clock.now());
    }

    /// How long the message was under way from the venue, in milliseconds by the wall clock. Below
    /// zero, the clocks disagree.
    pub fn exchange_to_local_ms(&self) -> (r: Option<i64>)
        ensures
            r == self.exchange_delay_ms(),
    {
        match self.exchange_ts_ms {
            Some(ts) => Some((self.received_wall_ms as i64).wrapping_sub(ts as i64)),
            None => None,
        }
    }

    /// The span from coming in to having become a book.
    pub fn normalize_latency(&self) -> (r: Option<Duration>)
        ensures
            r == self.span_to(self.normalized_instant),
    {
        match self.normalized_instant {
            Some(at) => Some(at.saturating_duration_since(self.received_instant)),
            None => None,
        }
    }

    /// The span from coming in to the price difference having been worked out.
    pub fn total_pipeline_latency(&self) -> (r: Option<Duration>)
        ensures
            r == self.span_to(self.evaluated_instant),
    {
        match self.evaluated_instant {
            Some(at) => Some(at.saturating_duration_since(self.received_instant)),
            None => None,
        }
    }

    /// How old the message is at `now`.
    pub fn age(&self, now: Instant) -> (r: Duration)
        ensures
            r == time::span_since(now, self.received_instant),
    {
        now.saturating_duration_since(self.received_instant)
    }
}

/// A message that has only become a book has no whole latency. Once the price difference has been
/// worked out, with the readings of the clock in order, the whole latency is there and is no less
/// than the one up to having become a book.
pub proof fn law_whole_latency_is_no_less(
    received: MessageTrace,
    normalized: Instant,
    evaluated: Instant,
)
    requires
        received.evaluated_instant is None,
        normalized.nanos <= evaluated.nanos,
    ensures
        ({
            let book = MessageTrace { normalized_instant: Some(normalized), ..received };
            let done = MessageTrace { evaluated_instant: Some(evaluated), ..book };
            &&& received.span_to(received.evaluated_instant) is None
            &&& book.span_to(book.evaluated_instant) is None
            &&& book.span_to(book.normalized_instant) == done.span_to(done.normalized_instant)
            &&& done.span_to(done.normalized_instant) matches Some(part) && done.span_to(
                done.evaluated_instant,
            ) matches Some(whole) && whole.nanos >= part.nanos
        }),
{
}

/// The delay of a message is when it came in less when the venue made it, and there is none without
/// the venue's time; a span on the monotonic clock is the later reading less the earlier one.
pub proof fn law_delay_is_arrival_less_departure(trace: MessageTrace, at: Instant)
    ensures
        trace.exchange_ts_ms is None ==> trace.exchange_delay_ms() is None,
        trace.exchange_ts_ms matches Some(ts) ==> (trace.exchange_delay_ms() matches Some(delay)
            && (ts <= i64::MAX && trace.received_wall_ms <= i64::MAX ==> delay
            == trace.received_wall_ms - ts)),
        trace.span_to(None) is None,
        trace.span_to(Some(at)) matches Some(span) && (at.nanos >= trace.received_instant.nanos
            ==> trace.received_instant.nanos + span.nanos == at.nanos) && (at.nanos
            < trace.received_instant.nanos ==> span.nanos == 0),
{
}

} // verus!

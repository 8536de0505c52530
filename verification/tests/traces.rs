//! Message traces and time.

use perp_arb::time::{now_wall_ms, Clock, Duration, Instant};
use perp_arb::trace::MessageTrace;

#[test]
fn exchange_to_local_handles_clock_skew() {
    let mut t = MessageTrace::on_receive(&Clock::start());
    t.received_wall_ms = 1_000_000;
    t.exchange_ts_ms = Some(999_950);
    assert_eq!(t.exchange_to_local_ms(), Some(50));

    t.exchange_ts_ms = Some(1_000_120);
    assert_eq!(t.exchange_to_local_ms(), Some(-120));

    t.exchange_ts_ms = None;
    assert_eq!(t.exchange_to_local_ms(), None);
}

#[test]
fn latencies_are_none_until_marked() {
    let clock = Clock::start();
    let mut t = MessageTrace::on_receive(&clock);
    assert!(t.normalize_latency().is_none());
    assert!(t.total_pipeline_latency().is_none());

    t.mark_normalized(&clock);
    assert!(t.normalize_latency().is_some());
    assert!(t.total_pipeline_latency().is_none());

    t.mark_evaluated(&clock);
    let total = t.total_pipeline_latency().unwrap();
    assert!(!total.is_less(t.normalize_latency().unwrap()));
}

#[test]
fn latencies_are_measured_from_receipt() {
    let start = Instant { nanos: 1_000 };
    let mut t = MessageTrace::received_at(start, 5);
    t.mark_normalized_at(start.saturating_add(Duration::from_millis(3)));
    t.mark_evaluated_at(start.saturating_add(Duration::from_millis(10)));
    assert_eq!(t.normalize_latency(), Some(Duration::from_millis(3)));
    assert_eq!(t.total_pipeline_latency(), Some(Duration::from_millis(10)));
    assert_eq!(t.age(start.saturating_add(Duration::from_secs(2))), Duration::from_secs(2));
    // An instant before the receipt counts as no time at all.
    assert_eq!(t.age(Instant { nanos: 0 }), Duration { nanos: 0 });
}

#[test]
fn clock_does_not_run_backwards() {
    let clock = Clock::start();
    let a = clock.now();
    let b = clock.now();
    assert!(b.nanos >= a.nanos);
    // The first of January 2020, at least.
    assert!(now_wall_ms() > 1_577_836_800_000);
}

#[test]
fn spans_are_converted() {
    let d = Duration::from_millis(1_500);
    assert_eq!(d.as_micros(), 1_500_000);
    assert_eq!(d.as_millis(), 1_500);
    assert_eq!(d.as_secs(), 1);
    assert!(d.is_less(Duration::from_secs(2)));
}

#[test]
fn whole_latency_is_no_less_than_that_of_a_part() {
    let clock = Clock::start();
    let mut t = MessageTrace::on_receive(&clock);
    assert!(t.total_pipeline_latency().is_none());
    t.mark_normalized(&clock);
    assert!(t.total_pipeline_latency().is_none());
    t.mark_evaluated(&clock);
    let whole = t.total_pipeline_latency().unwrap();
    assert!(!whole.is_less(t.normalize_latency().unwrap()));
}

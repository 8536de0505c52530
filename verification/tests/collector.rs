//! The parts of the collector.

use perp_arb::backoff::{apply_jitter, Backoff};
use perp_arb::book::{Level, OrderBook};
use perp_arb::collector::aggregator::{
    check_latency, check_staleness, Aggregator, AggregatorStats, Warning,
};
use perp_arb::collector::monitor::{Alarm, Monitor};
use perp_arb::collector::net_delta::BookMidPrices;
use perp_arb::collector::startup::{parse_config_path, plan_sources, Command};
use perp_arb::collector::supervisor::{NextStep, Supervisor, TaskEnd};
use perp_arb::config::Config;
use perp_arb::decimal::Decimal;
use perp_arb::divergence::DivergenceSnapshot;
use perp_arb::metrics::{SourceCounters, SourceMetrics};
use perp_arb::num::{Price, Quantity};
use perp_arb::rate_limit::RateLimiter;
use perp_arb::source::{
    after_session_at, check_symbols, FundingChannel, MarketDataError, Next, SendResult, SessionEnd,
};
use perp_arb::status::{ConnectionState, ConnectionStatus};
use perp_arb::store::BookStore;
use perp_arb::symbol::{Dex, Symbol};
use perp_arb::time::{Clock, Duration, Instant};
use perp_arb::trace::MessageTrace;

fn dec(text: &str) -> Decimal {
    Decimal::parse(text).unwrap()
}

fn book(dex: Dex, bid: &str, ask: &str, exchange_ts_ms: Option<u64>, received_wall_ms: u64) -> OrderBook {
    let mut trace = MessageTrace::on_receive(&Clock::start());
    trace.exchange_ts_ms = exchange_ts_ms;
    trace.received_wall_ms = received_wall_ms;
    OrderBook::new(
        dex,
        Symbol::Btc,
        vec![Level::new(Price(dec(bid)), Quantity(dec("1")))],
        vec![Level::new(Price(dec(ask)), Quantity(dec("1")))],
        trace,
    )
}

fn book_with_latency(dex: Dex, exchange_ts_ms: Option<u64>, received_wall_ms: u64) -> OrderBook {
    book(dex, "100", "101", exchange_ts_ms, received_wall_ms)
}

fn at(secs: u64) -> Instant {
    Instant { nanos: 1_000 }.saturating_add(Duration::from_secs(secs))
}

fn args(list: &[&str]) -> Vec<String> {
    list.iter().map(|s| String::from(*s)).collect()
}

#[test]
fn suppresses_within_interval_and_reports_count() {
    let mut rl = RateLimiter::new(Duration::from_secs(10));
    assert_eq!(rl.allow_at("a", at(0)), Some(0));
    assert_eq!(rl.allow_at("a", at(1)), None);
    assert_eq!(rl.allow_at("a", at(2)), None);
    assert_eq!(rl.allow_at("a", at(11)), Some(2));
    assert_eq!(rl.allow_at("a", at(30)), Some(0));
}

#[test]
fn keys_are_independent() {
    let mut rl = RateLimiter::new(Duration::from_secs(10));
    assert_eq!(rl.allow_at("a", at(0)), Some(0));
    assert_eq!(rl.allow_at("b", at(0)), Some(0));
    assert_eq!(rl.allow_at("a", at(0)), None);
}

#[test]
fn limiter_reads_its_own_clock() {
    let mut rl = RateLimiter::new(Duration::from_secs(3_600));
    assert_eq!(rl.allow("a"), Some(0));
    assert_eq!(rl.allow("a"), None);
}

#[test]
fn flags_slow_messages() {
    let mut stats = AggregatorStats::default();
    let mut limiter = RateLimiter::new(Duration::from_secs(0));
    let warning = check_latency(
        &book_with_latency(Dex::Hyperliquid, Some(1_000), 1_600),
        500,
        &mut limiter,
        &mut stats,
        at(0),
    );
    assert_eq!(stats.latency_warnings, 1);
    assert_eq!(stats.clock_skew_warnings, 0);
    assert_eq!(
        warning,
        Some(Warning::Latency {
            dex: Dex::Hyperliquid,
            symbol: Symbol::Btc,
            latency_ms: 600,
            suppressed: 0
        })
    );
}

#[test]
fn flags_negative_latency_as_clock_skew() {
    let mut stats = AggregatorStats::default();
    let mut limiter = RateLimiter::new(Duration::from_secs(0));
    let warning = check_latency(
        &book_with_latency(Dex::EdgeX, Some(2_000), 1_900),
        500,
        &mut limiter,
        &mut stats,
        at(0),
    );
    assert_eq!(stats.clock_skew_warnings, 1);
    assert_eq!(stats.latency_warnings, 0);
    assert!(matches!(
        warning,
        Some(Warning::ClockSkew { latency_ms: -100, .. })
    ));
}

#[test]
fn ignores_healthy_and_timestampless_messages() {
    let mut stats = AggregatorStats::default();
    let mut limiter = RateLimiter::new(Duration::from_secs(0));
    check_latency(
        &book_with_latency(Dex::Hyperliquid, Some(1_000), 1_050),
        500,
        &mut limiter,
        &mut stats,
        at(0),
    );
    check_latency(
        &book_with_latency(Dex::Hyperliquid, None, 1_050),
        500,
        &mut limiter,
        &mut stats,
        at(0),
    );
    assert_eq!(stats.latency_warnings, 0);
    assert_eq!(stats.clock_skew_warnings, 0);
}

#[test]
fn flags_stale_pairs_in_both_directions() {
    let clock = Clock::start();
    let mut stats = AggregatorStats::default();
    let mut limiter = RateLimiter::new(Duration::from_secs(0));
    let a = book_with_latency(Dex::Hyperliquid, Some(1_000), 5_000);
    let b = book_with_latency(Dex::EdgeX, Some(1_000), 1_000);

    let snap = DivergenceSnapshot::compute(&a, &b, Dex::Hyperliquid, None, &clock).unwrap();
    check_staleness(&snap, 1_000, &mut limiter, &mut stats, at(0));
    let flipped = DivergenceSnapshot::compute(&b, &a, Dex::EdgeX, None, &clock).unwrap();
    check_staleness(&flipped, 1_000, &mut limiter, &mut stats, at(0));
    assert_eq!(stats.staleness_warnings, 2);

    let fresh = DivergenceSnapshot::compute(&b, &b.clone(), Dex::EdgeX, None, &clock);
    assert!(fresh.is_none());
}

#[test]
fn warnings_of_a_kind_are_held_back() {
    let mut stats = AggregatorStats::default();
    let mut limiter = RateLimiter::new(Duration::from_secs(10));
    let slow = book_with_latency(Dex::Hyperliquid, Some(1_000), 1_600);
    assert!(check_latency(&slow, 500, &mut limiter, &mut stats, at(0)).is_some());
    assert!(check_latency(&slow, 500, &mut limiter, &mut stats, at(1)).is_none());
    // Another venue is told apart.
    let other = book_with_latency(Dex::EdgeX, Some(1_000), 1_600);
    assert!(check_latency(&other, 500, &mut limiter, &mut stats, at(1)).is_some());
    assert!(matches!(
        check_latency(&slow, 500, &mut limiter, &mut stats, at(20)),
        Some(Warning::Latency { suppressed: 1, .. })
    ));
    assert_eq!(stats.latency_warnings, 4);
}

#[test]
fn aggregator_compares_the_pairs_of_the_changed_book() {
    let clock = Clock::start();
    let mut cfg = Config::default();
    cfg.monitoring.staleness_warn_threshold_ms = 1_000;
    let mut aggregator = Aggregator::new(&cfg);

    let first = aggregator
        .on_book(book(Dex::Hyperliquid, "100", "101", None, 1_000), at(0), &clock)
        .unwrap();
    assert!(first.snapshots.is_empty());
    assert!(first.warnings.is_empty());

    let second = aggregator
        .on_book(book(Dex::EdgeX, "110", "111", None, 9_000), at(1), &clock)
        .unwrap();
    assert_eq!(second.snapshots.len(), 1);
    assert_eq!(second.snapshots[0].dex_a, Dex::Hyperliquid);
    assert_eq!(second.snapshots[0].dex_b, Dex::EdgeX);
    assert_eq!(second.warnings.len(), 1);
    assert!(matches!(second.warnings[0], Warning::Staleness { .. }));

    let third = aggregator
        .on_book(book(Dex::Aster, "105", "106", None, 9_000), at(2), &clock)
        .unwrap();
    // Its pairs with the two others, and not the pair of the two others.
    assert_eq!(third.snapshots.len(), 2);

    let stats = aggregator.stats();
    assert_eq!(stats.books_processed, 3);
    assert_eq!(stats.snapshots_computed, 3);
    assert_eq!(aggregator.store().len(), 3);
}

#[test]
fn dropped_snapshots_are_counted() {
    let mut aggregator = Aggregator::new(&Config::default());
    assert_eq!(
        aggregator.snapshot_dropped(at(0)),
        Some(Warning::Backpressure {
            dropped_total: 1,
            suppressed: 0
        })
    );
    assert_eq!(aggregator.snapshot_dropped(at(0)), None);
    assert_eq!(aggregator.stats().snapshots_dropped, 2);
}

#[test]
fn uses_the_freshest_book() {
    let mut store = BookStore::new();
    store.update(book(Dex::Hyperliquid, "36000", "36002", None, 1_000));
    store.update(book(Dex::Lighter, "35000", "35002", None, 2_000));

    let prices = BookMidPrices::new(vec![Dex::Hyperliquid, Dex::Lighter]);
    assert_eq!(
        prices.mark_price(&store, Symbol::Btc),
        Some(Price(dec("35001")))
    );
}

#[test]
fn no_book_yields_no_price() {
    let mut store = BookStore::new();
    let prices = BookMidPrices::new(vec![Dex::Hyperliquid]);
    assert_eq!(prices.mark_price(&store, Symbol::Btc), None);

    store.update(book(Dex::Dydx, "36002", "36000", None, 1_000));
    let prices = BookMidPrices::new(vec![Dex::Dydx]);
    assert_eq!(prices.mark_price(&store, Symbol::Btc), None);
}

#[test]
fn silent_sources_are_reported() {
    let mut monitor = Monitor::new();
    let mut metrics = SourceMetrics::default();
    let r = monitor.report(Dex::Aster, ConnectionStatus::Disconnected, metrics);
    assert_eq!(r.alarm, Alarm::NotConnected);

    metrics.messages_received = 10;
    let r = monitor.report(Dex::Aster, ConnectionStatus::Connected, metrics);
    assert_eq!(r.messages_delta, 10);
    assert_eq!(r.alarm, Alarm::Nothing);

    let r = monitor.report(Dex::Aster, ConnectionStatus::Connected, metrics);
    assert_eq!(r.messages_delta, 0);
    assert_eq!(r.alarm, Alarm::Silent);

    // Another venue has its own count.
    let r = monitor.report(Dex::EdgeX, ConnectionStatus::Connected, metrics);
    assert_eq!(r.messages_delta, 10);

    // A source that was started anew counts from zero.
    metrics.messages_received = 3;
    let r = monitor.report(Dex::EdgeX, ConnectionStatus::Connected, metrics);
    assert_eq!(r.messages_delta, 0);
}

#[test]
fn failed_tasks_are_restarted() {
    let mut s = Supervisor::new();
    assert_eq!(
        s.after_task(TaskEnd::Failed),
        NextStep::Restart {
            restarts: 1,
            delay: Duration::from_secs(5)
        }
    );
    assert!(matches!(
        s.after_task(TaskEnd::Panicked),
        NextStep::Restart { restarts: 2, .. }
    ));
    assert_eq!(s.after_task(TaskEnd::Finished), NextStep::Stop);
    assert_eq!(s.after_task(TaskEnd::ChannelClosed), NextStep::Stop);
    assert_eq!(s.after_task(TaskEnd::Shutdown), NextStep::Stop);
    assert_eq!(s.restarts, 2);
}

#[test]
fn arguments_are_read() {
    assert_eq!(
        parse_config_path(&args(&[])),
        Ok(Command::Run(String::from("config/collector.toml")))
    );
    assert_eq!(
        parse_config_path(&args(&["--config", "a.toml", "-c", "b.toml"])),
        Ok(Command::Run(String::from("b.toml")))
    );
    assert_eq!(
        parse_config_path(&args(&["-c", "a.toml", "-h", "--bogus"])),
        Ok(Command::Help)
    );
    assert_eq!(
        parse_config_path(&args(&["--config"])),
        Err(String::from("--config には設定ファイルのパスが必要です"))
    );
    assert_eq!(
        parse_config_path(&args(&["--bogus", "--help"])),
        Err(String::from("不明な引数: --bogus（--help を参照）"))
    );
}

#[test]
fn sources_are_planned_from_the_configuration() {
    let mut cfg = Config::default();
    cfg.dex.edgex.enabled = false;
    cfg.funding.enabled = true;
    cfg.funding.intervals_hours = vec![(Dex::Hyperliquid, dec("1"))];
    let plan = plan_sources(&cfg);
    assert_eq!(
        plan.market_data,
        vec![Dex::Hyperliquid, Dex::Aster, Dex::Lighter]
    );
    assert_eq!(plan.disabled, vec![Dex::EdgeX, Dex::Dydx]);
    assert_eq!(plan.funding, vec![Dex::Hyperliquid, Dex::Lighter]);
    assert_eq!(plan.without_funding, vec![Dex::Aster]);
    assert_eq!(plan.without_interval, vec![Dex::Lighter]);

    cfg.funding.enabled = false;
    let plan = plan_sources(&cfg);
    assert!(plan.funding.is_empty());
    assert!(plan.without_funding.is_empty());
    assert!(plan.without_interval.is_empty());
}

#[test]
fn grows_exponentially_within_jitter_bounds() {
    let mut b = Backoff::new(500, 60_000, 0);
    for expected in [500u64, 1000, 2000, 4000, 8000] {
        let d = b.next_delay().unwrap().as_millis() as u64;
        let lo = expected * 80 / 100;
        let hi = expected * 120 / 100;
        assert!(
            (lo..=hi).contains(&d),
            "attempt delay {d} not near {expected}"
        );
    }
}

#[test]
fn caps_at_max_delay() {
    let mut b = Backoff::new(500, 3_000, 0);
    for _ in 0..20 {
        let d = b.next_delay().unwrap().as_millis() as u64;
        assert!(d <= 3_600, "{d} exceeds max + jitter");
    }
}

#[test]
fn exhausts_after_max_attempts() {
    let mut b = Backoff::new(10, 100, 3);
    assert!(b.next_delay().is_some());
    assert!(b.next_delay().is_some());
    assert!(b.next_delay().is_some());
    assert!(b.is_exhausted());
    assert!(b.next_delay().is_none());
    assert_eq!(b.attempt(), 3);

    b.reset();
    assert!(!b.is_exhausted());
    assert!(b.next_delay().is_some());
}

#[test]
fn zero_max_attempts_is_unlimited() {
    let mut b = Backoff::new(1, 2, 0);
    for _ in 0..1000 {
        assert!(b.next_delay().is_some());
    }
}

#[test]
fn delays_are_spread_by_the_nanoseconds() {
    assert_eq!(apply_jitter(1_000, 0), 800);
    assert_eq!(apply_jitter(1_000, 20), 1_000);
    assert_eq!(apply_jitter(1_000, 40), 1_200);
    let mut b = Backoff::new(1_000, 60_000, 0);
    assert_eq!(b.next_delay_at(0), Some(Duration::from_millis(800)));
    assert_eq!(b.next_delay_at(0), Some(Duration::from_millis(1_600)));
}

#[test]
fn counters_accumulate() {
    let mut c = SourceCounters::new();
    assert_eq!(c.snapshot(), SourceMetrics::default());

    c.record_message();
    c.record_message();
    c.record_book();
    c.record_parse_error();
    c.record_sequence_gap();
    c.record_resync();
    c.record_crossed_book();

    assert_eq!(
        c.snapshot(),
        SourceMetrics {
            messages_received: 2,
            books_emitted: 1,
            parse_errors: 1,
            sequence_gaps: 1,
            resyncs: 1,
            crossed_books: 1,
        }
    );
}

#[test]
fn transitions() {
    let mut s = ConnectionState::new();
    assert_eq!(s.get(), ConnectionStatus::Disconnected);

    s.set_reconnecting(3);
    assert_eq!(s.get(), ConnectionStatus::Reconnecting { attempts: 3 });

    s.set_connected();
    assert_eq!(s.get(), ConnectionStatus::Connected);
    s.set_reconnecting(1);
    assert_eq!(s.get(), ConnectionStatus::Reconnecting { attempts: 1 });

    s.set_disconnected();
    assert_eq!(s.get(), ConnectionStatus::Disconnected);
}

#[test]
fn states_are_described() {
    assert_eq!(ConnectionStatus::Connected.describe(), "connected");
    assert_eq!(
        ConnectionStatus::Reconnecting { attempts: 3 }.describe(),
        "reconnecting(attempts=3)"
    );
}

#[test]
fn publish_without_registration_is_a_no_op() {
    let mut ch = FundingChannel::new();
    assert!(!ch.is_registered());
    assert!(!ch.publish(SendResult::Sent));
    assert_eq!(ch.published(), 0);
    assert_eq!(ch.dropped(), 0);
}

#[test]
fn publish_delivers_to_registered_receiver() {
    let mut ch = FundingChannel::new();
    ch.register();
    assert!(ch.publish(SendResult::Sent));
    assert_eq!(ch.published(), 1);
}

#[test]
fn full_channel_drops_instead_of_blocking() {
    let mut ch = FundingChannel::new();
    ch.register();
    assert!(ch.publish(SendResult::Sent));
    assert!(!ch.publish(SendResult::Full));
    assert_eq!(ch.published(), 1);
    assert_eq!(ch.dropped(), 1);
}

#[test]
fn closed_channel_unregisters_itself() {
    let mut ch = FundingChannel::new();
    ch.register();
    assert!(!ch.publish(SendResult::Closed));
    assert!(!ch.is_registered());
}

#[test]
fn first_drops_are_worth_a_warning() {
    let mut ch = FundingChannel::new();
    ch.register();
    ch.publish(SendResult::Full);
    assert!(ch.drop_is_worth_a_warning());
    ch.publish(SendResult::Full);
    assert!(!ch.drop_is_worth_a_warning());
}

#[test]
fn empty_symbol_list_is_refused() {
    assert!(check_symbols(&[Symbol::Btc]).is_ok());
    assert!(matches!(
        check_symbols(&[]),
        Err(MarketDataError::Config(_))
    ));
}

#[test]
fn sessions_are_tried_again_until_the_attempts_are_used_up() {
    let mut state = ConnectionState::new();
    let mut backoff = Backoff::new(10, 100, 1);
    let next = after_session_at(&mut state, &mut backoff, SessionEnd::Closed, 0);
    assert!(matches!(next, Next::Wait(_)));
    assert_eq!(state.get(), ConnectionStatus::Reconnecting { attempts: 1 });

    let next = after_session_at(&mut state, &mut backoff, SessionEnd::Closed, 0);
    assert!(matches!(
        next,
        Next::Stop(MarketDataError::ReconnectExhausted { attempts: 1 })
    ));
    assert_eq!(state.get(), ConnectionStatus::Disconnected);
}

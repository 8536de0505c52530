//! Rows, files and days.

use std::collections::BTreeMap;

use perp_arb::book::{Level, OrderBook};
use perp_arb::by_dex::ByDex;
use perp_arb::config::{CsvMode, FundingRecordingConfig, RecordingConfig};
use perp_arb::dates::{date_of_millis, wall_ms_to_date, wall_ms_to_date_or, Date};
use perp_arb::decimal::Decimal;
use perp_arb::divergence::DivergenceSnapshot;
use perp_arb::funding::FundingRate;
use perp_arb::num::{Price, Quantity};
use perp_arb::recorder::csv_writer::{
    csv_file_name, csv_header, fmt_bps, snapshot_to_row, CsvRecorder,
};
use perp_arb::recorder::funding_csv::{
    funding_csv_header, funding_file_name, funding_to_row, FundingRecorder,
};
use perp_arb::recorder::net_delta_csv::{
    net_delta_csv_header, net_delta_file_name, status_to_row, NetDeltaAction, NetDeltaRecorder,
    NetDeltaStatus,
};
use perp_arb::recorder::open_files::{starts_with_header, OpenFiles, Prepared};
use perp_arb::recorder::{csv_writer, funding_csv};
use perp_arb::symbol::{Dex, Symbol};
use perp_arb::time::Clock;
use perp_arb::trace::MessageTrace;

const BASE_MS: u64 = 1_700_000_000_000;

const TODAY: Date = Date {
    year: 2000,
    month: 1,
    day: 1,
};

fn dec(text: &str) -> Decimal {
    Decimal::parse(text).unwrap()
}

/// Files, kept in memory.
struct Disk {
    files: BTreeMap<String, Vec<Vec<String>>>,
}

impl Disk {
    fn new() -> Disk {
        Disk {
            files: BTreeMap::new(),
        }
    }

    fn open(&mut self, name: &str, header: Vec<String>) {
        let size = self.files.get(name).map(|rows| rows.len() as u64);
        let rows = self.files.entry(String::from(name)).or_default();
        if starts_with_header(size) {
            rows.push(header);
        }
    }

    fn append(&mut self, name: &str, row: Vec<String>) {
        self.files.get_mut(name).unwrap().push(row);
    }

    fn rows(&self, name: &str) -> &Vec<Vec<String>> {
        &self.files[name]
    }
}

fn snapshot(symbol: Symbol, wall_ms: u64, bid_a: &str) -> DivergenceSnapshot {
    let clock = Clock::start();
    let mk = |dex: Dex, bid: Decimal, ask: Decimal| {
        let mut trace = MessageTrace::on_receive(&clock);
        trace.received_wall_ms = wall_ms;
        trace.exchange_ts_ms = Some(wall_ms - 7);
        trace.mark_normalized(&clock);
        OrderBook::new(
            dex,
            symbol,
            vec![Level::new(Price(bid), Quantity(dec("30")))],
            vec![Level::new(Price(ask), Quantity(dec("30")))],
            trace,
        )
    };
    let bid = dec(bid_a);
    let a = mk(Dex::Hyperliquid, bid, bid.checked_add(dec("1")).unwrap());
    let b = mk(Dex::EdgeX, dec("100"), dec("101"));
    let mut snap =
        DivergenceSnapshot::compute(&a, &b, Dex::Hyperliquid, Some(dec("1000")), &clock).unwrap();
    snap.computed_at_wall_ms = wall_ms;
    snap
}

fn recorder(mode: CsvMode, threshold: &str) -> CsvRecorder {
    let cfg = RecordingConfig {
        csv_mode: mode,
        csv_sample_interval_ms: 100,
        csv_threshold_bps: dec(threshold),
        ..Default::default()
    };
    CsvRecorder::new(&cfg)
}

fn record(rec: &mut CsvRecorder, files: &mut OpenFiles, disk: &mut Disk, snap: &DivergenceSnapshot) {
    match rec.record(snap, TODAY) {
        csv_writer::Recording::Skip => {}
        csv_writer::Recording::Write { date, symbol, row } => {
            let name = csv_file_name(date, symbol);
            if let Prepared::Open { .. } = files.prepare(date, symbol) {
                disk.open(&name, csv_header());
                files.opened(symbol);
            }
            disk.append(&name, row);
            rec.row_written();
        }
    }
}

fn rate(dex: Dex, symbol: Symbol, current: &str, wall_ms: u64) -> FundingRate {
    let clock = Clock::start();
    let mut trace = MessageTrace::on_receive(&clock);
    trace.received_wall_ms = wall_ms;
    trace.exchange_ts_ms = Some(wall_ms - 12);
    trace.mark_normalized(&clock);
    FundingRate {
        dex,
        symbol,
        current_rate: dec(current),
        predicted_rate: Some(dec(current).checked_add(dec("0.000001")).unwrap()),
        interval_hours: Some(dec("1")),
        next_funding_time_ms: Some(wall_ms + 3_600_000),
        index_price: Some(Price(dec("36000.0"))),
        mark_price: Some(Price(dec("36000.5"))),
        open_interest: None,
        volume_24h_usd: None,
        trace,
    }
}

fn funding_recorder(heartbeat_secs: u64) -> FundingRecorder {
    let cfg = RecordingConfig {
        funding: FundingRecordingConfig {
            enabled: true,
            heartbeat_interval_secs: heartbeat_secs,
        },
        ..Default::default()
    };
    FundingRecorder::new(&cfg)
}

fn record_rate(rec: &mut FundingRecorder, files: &mut OpenFiles, disk: &mut Disk, rate: &FundingRate) {
    match rec.record(rate, TODAY).unwrap() {
        funding_csv::Recording::Skip => {}
        funding_csv::Recording::Write { date, symbol, row } => {
            let name = funding_file_name(date, symbol);
            if let Prepared::Open { .. } = files.prepare(date, symbol) {
                disk.open(&name, funding_csv_header());
                files.opened(symbol);
            }
            disk.append(&name, row);
            rec.row_written();
        }
    }
}

fn column(header: &[String], row: &[String], name: &str) -> String {
    let idx = header.iter().position(|h| h == name).unwrap();
    row[idx].clone()
}

fn funding_column(row: &[String], name: &str) -> String {
    column(&funding_csv_header(), row, name)
}

fn status(hl: &str, lighter: &str, net: &str, net_usd: &str, action: NetDeltaAction) -> NetDeltaStatus {
    let mut positions = ByDex::new();
    positions.set(Dex::Hyperliquid, Quantity(dec(hl)));
    positions.set(Dex::Lighter, Quantity(dec(lighter)));
    NetDeltaStatus {
        checked_at_wall_ms: BASE_MS,
        symbol: Symbol::Btc,
        positions,
        net_delta: Quantity(dec(net)),
        net_delta_usd: Some(dec(net_usd)),
        mark_price: Some(Price(dec("36000"))),
        drift_usd: Some(dec("0")),
        action,
    }
}

fn even() -> NetDeltaStatus {
    status("0.5", "-0.5", "0", "0", NetDeltaAction::Nothing)
}

fn record_status(rec: &mut NetDeltaRecorder, disk: &mut Disk, status: &NetDeltaStatus) {
    let row = rec.record(status, TODAY);
    let name = net_delta_file_name(row.date);
    disk.open(&name, net_delta_csv_header());
    disk.append(&name, row.fields);
    rec.row_written(row.date);
}

#[test]
fn csv_writer_row_matches_header_length() {
    let snap = snapshot(Symbol::Btc, BASE_MS, "110");
    assert_eq!(snapshot_to_row(&snap).len(), csv_header().len());
}

#[test]
fn writes_header_once_and_appends_rows() {
    let mut disk = Disk::new();
    {
        let mut rec = recorder(CsvMode::All, "5");
        let mut files = OpenFiles::new();
        record(&mut rec, &mut files, &mut disk, &snapshot(Symbol::Btc, BASE_MS, "110"));
        record(&mut rec, &mut files, &mut disk, &snapshot(Symbol::Btc, BASE_MS + 500, "111"));
    }
    // A recorder that is started anew goes on in the same file.
    {
        let mut rec = recorder(CsvMode::All, "5");
        let mut files = OpenFiles::new();
        record(&mut rec, &mut files, &mut disk, &snapshot(Symbol::Btc, BASE_MS + 1_000, "112"));
    }
    let rows = disk.rows("2023-11-14_BTC.csv");
    assert_eq!(rows.len(), 4);
    assert_eq!(rows[0], csv_header());
    assert_eq!(rows[1][1], "BTC");
    assert_eq!(rows[1][0], "1700000000000");
}

#[test]
fn csv_writer_splits_files_per_symbol_and_per_day() {
    let mut disk = Disk::new();
    let mut rec = recorder(CsvMode::All, "5");
    let mut files = OpenFiles::new();
    record(&mut rec, &mut files, &mut disk, &snapshot(Symbol::Btc, BASE_MS, "110"));
    record(&mut rec, &mut files, &mut disk, &snapshot(Symbol::Eth, BASE_MS, "110"));
    record(&mut rec, &mut files, &mut disk, &snapshot(Symbol::Btc, 1_700_086_400_000, "110"));

    assert!(disk.files.contains_key("2023-11-14_BTC.csv"));
    assert!(disk.files.contains_key("2023-11-14_ETH.csv"));
    assert!(disk.files.contains_key("2023-11-15_BTC.csv"));
    assert_eq!(files.len(), 1);
}

#[test]
fn sampled_mode_thins_by_interval() {
    let mut disk = Disk::new();
    let mut rec = recorder(CsvMode::Sampled, "5");
    let mut files = OpenFiles::new();
    for offset in [0, 30, 60, 100, 130, 210] {
        record(&mut rec, &mut files, &mut disk, &snapshot(Symbol::Btc, BASE_MS + offset, "110"));
    }
    assert_eq!(rec.rows_written(), 3);
    assert_eq!(rec.rows_skipped(), 3);
}

#[test]
fn sampled_mode_is_per_symbol() {
    let mut disk = Disk::new();
    let mut rec = recorder(CsvMode::Sampled, "5");
    let mut files = OpenFiles::new();
    record(&mut rec, &mut files, &mut disk, &snapshot(Symbol::Btc, BASE_MS, "110"));
    record(&mut rec, &mut files, &mut disk, &snapshot(Symbol::Eth, BASE_MS + 1, "110"));
    record(&mut rec, &mut files, &mut disk, &snapshot(Symbol::Btc, BASE_MS + 2, "110"));
    assert_eq!(rec.rows_written(), 2);
    assert_eq!(rec.rows_skipped(), 1);
}

#[test]
fn threshold_mode_keeps_only_large_divergence() {
    let mut disk = Disk::new();
    let mut files = OpenFiles::new();
    let mut rec = recorder(CsvMode::Threshold, "5");
    record(&mut rec, &mut files, &mut disk, &snapshot(Symbol::Btc, BASE_MS, "100"));
    assert_eq!(rec.rows_written(), 1);

    let mut rec = recorder(CsvMode::Threshold, "200");
    record(&mut rec, &mut files, &mut disk, &snapshot(Symbol::Btc, BASE_MS, "100"));
    assert_eq!(rec.rows_written(), 0);
    assert_eq!(rec.rows_skipped(), 1);
}

#[test]
fn latency_columns_are_populated() {
    let mut disk = Disk::new();
    let mut files = OpenFiles::new();
    let mut rec = recorder(CsvMode::All, "5");
    record(&mut rec, &mut files, &mut disk, &snapshot(Symbol::Sol, BASE_MS, "110"));

    let header = csv_header();
    let row = &disk.rows("2023-11-14_SOL.csv")[1];
    assert_eq!(column(&header, row, "latency_a_ms"), "7");
    assert_eq!(column(&header, row, "latency_b_ms"), "7");
    assert_eq!(column(&header, row, "staleness_delta_ms"), "0");
    assert!(!column(&header, row, "pipeline_latency_us").is_empty());
    assert!(!column(&header, row, "vwap_spread_bps").is_empty());
}

#[test]
fn crossed_books_are_marked_in_the_row() {
    let header = csv_header();
    let mut snap = snapshot(Symbol::Sol, BASE_MS, "110");
    snap.book_crossed_b = true;
    let row = snapshot_to_row(&snap);
    assert_eq!(column(&header, &row, "book_crossed_a"), "false");
    assert_eq!(column(&header, &row, "book_crossed_b"), "true");
    assert_eq!(column(&header, &row, "mid_a"), "110.5");
    assert_eq!(column(&header, &row, "dex_b"), "edgex");
}

#[test]
fn bps_values_are_rounded() {
    assert_eq!(fmt_bps(dec("-99.5024875621890547")), "-99.5025");
    assert_eq!(fmt_bps(dec("0.00000001")), "0");
    assert_eq!(fmt_bps(dec("12.5000")), "12.5");
}

#[test]
fn funding_csv_row_matches_header_length() {
    let r = rate(Dex::Lighter, Symbol::Btc, "0.0000125", BASE_MS);
    assert_eq!(funding_to_row(&r).len(), funding_csv_header().len());
}

#[test]
fn writes_one_row_per_dex_not_per_pair() {
    let mut disk = Disk::new();
    let mut files = OpenFiles::new();
    let mut rec = funding_recorder(300);
    record_rate(
        &mut rec,
        &mut files,
        &mut disk,
        &rate(Dex::Hyperliquid, Symbol::Btc, "0.0000125", BASE_MS),
    );
    record_rate(
        &mut rec,
        &mut files,
        &mut disk,
        &rate(Dex::Lighter, Symbol::Btc, "0.0000100", BASE_MS),
    );

    let rows = disk.rows("2023-11-14_BTC_funding.csv");
    assert_eq!(rows.len(), 3);
    assert_eq!(rows[0], funding_csv_header());
    assert_eq!(funding_column(&rows[1], "dex"), "hyperliquid");
    assert_eq!(funding_column(&rows[2], "dex"), "lighter");
}

#[test]
fn records_only_on_change() {
    let mut disk = Disk::new();
    let mut files = OpenFiles::new();
    let mut rec = funding_recorder(300);
    for offset in [0, 1_000, 2_000] {
        record_rate(
            &mut rec,
            &mut files,
            &mut disk,
            &rate(Dex::Lighter, Symbol::Btc, "0.0000125", BASE_MS + offset),
        );
    }
    assert_eq!(rec.rows_written(), 1);
    assert_eq!(rec.rows_skipped(), 2);

    record_rate(
        &mut rec,
        &mut files,
        &mut disk,
        &rate(Dex::Lighter, Symbol::Btc, "0.0000130", BASE_MS + 3_000),
    );
    assert_eq!(rec.rows_written(), 2);
}

#[test]
fn heartbeat_forces_a_row_even_without_change() {
    let mut disk = Disk::new();
    let mut files = OpenFiles::new();
    let mut rec = funding_recorder(300);
    let same = "0.0000125";

    record_rate(&mut rec, &mut files, &mut disk, &rate(Dex::Lighter, Symbol::Btc, same, BASE_MS));
    record_rate(
        &mut rec,
        &mut files,
        &mut disk,
        &rate(Dex::Lighter, Symbol::Btc, same, BASE_MS + 299_000),
    );
    assert_eq!(rec.rows_written(), 1);

    record_rate(
        &mut rec,
        &mut files,
        &mut disk,
        &rate(Dex::Lighter, Symbol::Btc, same, BASE_MS + 300_000),
    );
    assert_eq!(rec.rows_written(), 2);
    assert_eq!(rec.rows_skipped(), 1);
}

#[test]
fn change_detection_is_per_dex_and_symbol() {
    let mut disk = Disk::new();
    let mut files = OpenFiles::new();
    let mut rec = funding_recorder(300);
    let same = "0.0000125";
    for r in [
        rate(Dex::Lighter, Symbol::Btc, same, BASE_MS),
        rate(Dex::Hyperliquid, Symbol::Btc, same, BASE_MS),
        rate(Dex::Lighter, Symbol::Eth, same, BASE_MS),
        rate(Dex::Lighter, Symbol::Btc, same, BASE_MS + 10),
    ] {
        record_rate(&mut rec, &mut files, &mut disk, &r);
    }
    assert_eq!(rec.rows_written(), 3);
    assert_eq!(rec.rows_skipped(), 1);
}

#[test]
fn funding_csv_splits_files_per_symbol_and_per_day() {
    let mut disk = Disk::new();
    let mut files = OpenFiles::new();
    let mut rec = funding_recorder(300);
    for r in [
        rate(Dex::Lighter, Symbol::Btc, "0.0001", BASE_MS),
        rate(Dex::Lighter, Symbol::Eth, "0.0001", BASE_MS),
        rate(Dex::Lighter, Symbol::Btc, "0.0002", BASE_MS + 86_400_000),
    ] {
        record_rate(&mut rec, &mut files, &mut disk, &r);
    }
    assert!(disk.files.contains_key("2023-11-14_BTC_funding.csv"));
    assert!(disk.files.contains_key("2023-11-14_ETH_funding.csv"));
    assert!(disk.files.contains_key("2023-11-15_BTC_funding.csv"));
    assert_eq!(files.len(), 1);
}

#[test]
fn annualized_column_normalizes_different_intervals() {
    let hourly = funding_to_row(&rate(Dex::Lighter, Symbol::Sol, "0.00001", BASE_MS));
    let eight_hourly = funding_to_row(&FundingRate {
        current_rate: dec("0.00008"),
        interval_hours: Some(dec("8")),
        ..rate(Dex::Aster, Symbol::Sol, "0.00008", BASE_MS)
    });
    assert_eq!(funding_column(&hourly, "annualized_pct"), "8.76");
    assert_eq!(funding_column(&eight_hourly, "annualized_pct"), "8.76");
    assert_ne!(
        funding_column(&hourly, "current_rate"),
        funding_column(&eight_hourly, "current_rate")
    );
    assert_eq!(funding_column(&hourly, "interval_hours"), "1");
    assert_eq!(funding_column(&eight_hourly, "interval_hours"), "8");
}

#[test]
fn unknown_interval_leaves_annualized_empty() {
    let row = funding_to_row(&FundingRate {
        interval_hours: None,
        predicted_rate: None,
        ..rate(Dex::EdgeX, Symbol::Hype, "0.0001", BASE_MS)
    });
    assert_eq!(funding_column(&row, "interval_hours"), "");
    assert_eq!(funding_column(&row, "annualized_pct"), "");
    assert_eq!(funding_column(&row, "predicted_rate"), "");
    assert_eq!(funding_column(&row, "current_rate"), "0.0001");
    assert_eq!(funding_column(&row, "latency_ms"), "12");
    assert_eq!(funding_column(&row, "index_price"), "36000");
}

#[test]
fn liquidity_metrics_ride_along_on_the_same_row() {
    let row = funding_to_row(&FundingRate {
        open_interest: Some(Quantity(dec("1000"))),
        volume_24h_usd: Some(dec("72000000")),
        mark_price: Some(Price(dec("36000"))),
        ..rate(Dex::Hyperliquid, Symbol::Eth, "0.0001", BASE_MS)
    });
    assert_eq!(funding_column(&row, "open_interest"), "1000");
    assert_eq!(funding_column(&row, "volume_24h_usd"), "72000000");
    assert_eq!(funding_column(&row, "volume_oi_ratio"), "2");
}

#[test]
fn ratio_is_empty_when_units_cannot_be_normalized() {
    let row = funding_to_row(&FundingRate {
        open_interest: Some(Quantity(dec("1000"))),
        volume_24h_usd: Some(dec("72000000")),
        mark_price: None,
        index_price: None,
        ..rate(Dex::Lighter, Symbol::Sol, "0.0001", BASE_MS)
    });
    assert_eq!(funding_column(&row, "open_interest"), "1000");
    assert_eq!(funding_column(&row, "volume_oi_ratio"), "");
}

#[test]
fn missing_liquidity_metrics_leave_empty_columns() {
    let row = funding_to_row(&rate(Dex::EdgeX, Symbol::Hype, "0.0001", BASE_MS));
    assert_eq!(funding_column(&row, "open_interest"), "");
    assert_eq!(funding_column(&row, "volume_24h_usd"), "");
    assert_eq!(funding_column(&row, "volume_oi_ratio"), "");
}

#[test]
fn appends_without_duplicating_header_across_restarts() {
    let mut disk = Disk::new();
    for (current, wall_ms) in [("0.0001", BASE_MS), ("0.0002", BASE_MS + 5)] {
        let mut files = OpenFiles::new();
        let mut rec = funding_recorder(300);
        record_rate(
            &mut rec,
            &mut files,
            &mut disk,
            &rate(Dex::Lighter, Symbol::Btc, current, wall_ms),
        );
    }
    let rows = disk.rows("2023-11-14_BTC_funding.csv");
    assert_eq!(rows.len(), 3);
    assert_eq!(rows[0], funding_csv_header());
}

#[test]
fn net_delta_csv_row_matches_header_length() {
    assert_eq!(status_to_row(&even()).len(), net_delta_csv_header().len());
}

#[test]
fn records_every_check_without_change_detection() {
    let mut disk = Disk::new();
    let mut rec = NetDeltaRecorder::new();
    for _ in 0..3 {
        record_status(&mut rec, &mut disk, &even());
    }
    let header = net_delta_csv_header();
    let rows = disk.rows("2023-11-14_net_delta.csv");
    assert_eq!(rows.len(), 4);
    assert_eq!(rows[0], header);
    assert_eq!(column(&header, &rows[1], "net_delta"), "0");
    assert_eq!(column(&header, &rows[1], "action"), "none");
    assert_eq!(rec.rows_written(), 3);
}

#[test]
fn writes_per_dex_positions_and_notional() {
    let header = net_delta_csv_header();
    let row = status_to_row(&status("0.5", "-0.497", "0.003", "108", NetDeltaAction::Warn));
    assert_eq!(column(&header, &row, "pos_hyperliquid"), "0.5");
    assert_eq!(column(&header, &row, "pos_lighter"), "-0.497");
    assert_eq!(column(&header, &row, "pos_edgex"), "");
    assert_eq!(column(&header, &row, "net_delta"), "0.003");
    assert_eq!(column(&header, &row, "net_delta_usd"), "108");
    assert_eq!(column(&header, &row, "mark_price"), "36000");
    assert_eq!(column(&header, &row, "drift_usd"), "0");
    assert_eq!(
        column(&header, &row, "action"),
        NetDeltaAction::Warn.as_str()
    );
}

#[test]
fn splits_files_per_day() {
    let mut disk = Disk::new();
    let mut rec = NetDeltaRecorder::new();
    record_status(&mut rec, &mut disk, &even());

    let mut next_day = even();
    next_day.checked_at_wall_ms = BASE_MS + 86_400_000;
    assert!(rec.record(&next_day, TODAY).close);
    record_status(&mut rec, &mut disk, &next_day);

    assert!(disk.files.contains_key("2023-11-14_net_delta.csv"));
    assert!(disk.files.contains_key("2023-11-15_net_delta.csv"));
}

#[test]
fn days_are_those_of_the_utc_calendar() {
    let date = |millis: i64| date_of_millis(millis).map(|d| d.to_text());
    assert_eq!(date(0), Some(String::from("1970-01-01")));
    assert_eq!(date(-1), Some(String::from("1969-12-31")));
    assert_eq!(date(951_782_400_000), Some(String::from("2000-02-29")));
    assert_eq!(date(i64::MAX), None);
    assert_eq!(wall_ms_to_date(86_400_000).to_text(), "1970-01-02");
    // A time that no calendar reaches counts as today.
    assert_eq!(wall_ms_to_date_or(i64::MAX as u64, TODAY), TODAY);
}

#[test]
fn files_of_the_day_before_are_closed() {
    let mut files = OpenFiles::new();
    let monday = Date {
        year: 2023,
        month: 11,
        day: 13,
    };
    let tuesday = Date {
        year: 2023,
        month: 11,
        day: 14,
    };
    assert!(matches!(files.prepare(monday, Symbol::Eth), Prepared::Open { .. }));
    files.opened(Symbol::Eth);
    assert!(matches!(files.prepare(monday, Symbol::Eth), Prepared::Ready));
    match files.prepare(tuesday, Symbol::Eth) {
        Prepared::Open { close } => assert_eq!(close, vec![Symbol::Eth]),
        Prepared::Ready => panic!("the file of another day"),
    }
    assert_eq!(files.len(), 0);
}

#[test]
fn threshold_must_be_exceeded() {
    for (spread, wanted) in [("5", false), ("-5", false), ("5.0001", true), ("-5.0001", true)] {
        let mut rec = recorder(CsvMode::Threshold, "5");
        let mut snap = snapshot(Symbol::Btc, BASE_MS, "110");
        snap.executable_spread_bps = dec(spread);
        assert_eq!(rec.should_record(&snap), wanted, "{spread}");
        assert_eq!(rec.should_record(&snap), wanted, "{spread}");
    }
}

#[test]
fn header_starts_a_file_without_rows() {
    assert!(starts_with_header(None));
    assert!(starts_with_header(Some(0)));
    assert!(!starts_with_header(Some(1)));
}

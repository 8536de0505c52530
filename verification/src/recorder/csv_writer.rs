//! The rows of price differences.

use vstd::prelude::*;

use crate::by_symbol::BySymbol;
use crate::config::{CsvMode, RecordingConfig};
use crate::dates::{Date, wall_ms_to_date_or};
use crate::decimal;
use crate::decimal::Decimal;
use crate::divergence::DivergenceSnapshot;
use crate::recorder::fields;
use crate::symbol::Symbol;
use crate::text;

verus! {

/// How many digits behind the point basis points have. More would only swell the files.
pub const BPS_SCALE: u32 = 4;

/// The names of the columns.
pub open spec fn header() -> Seq<Seq<char>> {
    seq![
        "timestamp_ms"@,
        "symbol"@,
        "dex_a"@,
        "dex_b"@,
        "mid_a"@,
        "mid_b"@,
        "best_bid_a"@,
        "best_ask_a"@,
        "best_bid_b"@,
        "best_ask_b"@,
        "raw_spread_bps"@,
        "executable_spread_bps"@,
        "vwap_spread_bps"@,
        "depth_a_bps10"@,
        "depth_b_bps10"@,
        "book_crossed_a"@,
        "book_crossed_b"@,
        "staleness_delta_ms"@,
        "latency_a_ms"@,
        "latency_b_ms"@,
        "pipeline_latency_us"@,
    ]
}

/// The row of a snapshot, in the order of the columns.
pub open spec fn row_of(snap: DivergenceSnapshot) -> Seq<Seq<char>> {
    seq![
        text::digits(snap.computed_at_wall_ms as nat),
        snap.symbol.name(),
        snap.dex_a.name(),
        snap.dex_b.name(),
        decimal::decimal_text(snap.mid_a.0),
        decimal::decimal_text(snap.mid_b.0),
        decimal::decimal_text(snap.best_bid_a.0),
        decimal::decimal_text(snap.best_ask_a.0),
        decimal::decimal_text(snap.best_bid_b.0),
        decimal::decimal_text(snap.best_ask_b.0),
        fields::rounded(snap.raw_spread_bps, BPS_SCALE as nat),
        fields::rounded(snap.executable_spread_bps, BPS_SCALE as nat),
        fields::rounded_or_empty(snap.vwap_spread_bps, BPS_SCALE as nat),
        decimal::decimal_text(snap.depth_a_bps10.0),
        decimal::decimal_text(snap.depth_b_bps10.0),
        fields::flag(snap.book_crossed_a),
        fields::flag(snap.book_crossed_b),
        text::signed(snap.staleness_delta_ms as int),
        fields::signed_or_empty(snap.delay_ms(snap.dex_a)),
        fields::signed_or_empty(snap.delay_ms(snap.dex_b)),
        match snap.pipeline_us() {
            Some(us) => text::digits(us as nat),
            None => Seq::empty(),
        },
    ]
}

/// The names of the columns.
pub fn csv_header() -> (r: Vec<String>)
    ensures
        text::views(r@) == header(),
{
    let mut out: Vec<String> = Vec::new();
    out.push("timestamp_ms".to_owned());
    out.push("symbol".to_owned());
    out.push("dex_a".to_owned());
    out.push("dex_b".to_owned());
    out.push("mid_a".to_owned());
    out.push("mid_b".to_owned());
    out.push("best_bid_a".to_owned());
    out.push("best_ask_a".to_owned());
    out.push("best_bid_b".to_owned());
    out.push("best_ask_b".to_owned());
    out.push("raw_spread_bps".to_owned());
    out.push("executable_spread_bps".to_owned());
    out.push("vwap_spread_bps".to_owned());
    out.push("depth_a_bps10".to_owned());
    out.push("depth_b_bps10".to_owned());
    out.push("book_crossed_a".to_owned());
    out.push("book_crossed_b".to_owned());
    out.push("staleness_delta_ms".to_owned());
    out.push("latency_a_ms".to_owned());
    out.push("latency_b_ms".to_owned());
    out.push("pipeline_latency_us".to_owned());
    proof {
        assert(text::views(out@) =~= header());
    }
    out
}

/// The row of a snapshot, in the order of the columns.
pub fn snapshot_to_row(snap: &DivergenceSnapshot) -> (r: Vec<String>)
    ensures
        text::views(r@) == row_of(*snap),
{
    let mut out: Vec<String> = Vec::new();
    out.push(text::number_text(snap.computed_at_wall_ms));
    out.push(snap.symbol.as_str().to_owned());
    out.push(snap.dex_a.as_str().to_owned());
    out.push(snap.dex_b.as_str().to_owned());
    out.push(snap.mid_a.0.to_text());
    out.push(snap.mid_b.0.to_text());
    out.push(snap.best_bid_a.0.to_text());
    out.push(snap.best_ask_a.0.to_text());
    out.push(snap.best_bid_b.0.to_text());
    out.push(snap.best_ask_b.0.to_text());
    out.push(fmt_bps(snap.raw_spread_bps));
    out.push(fmt_bps(snap.executable_spread_bps));
    out.push(fields::rounded_field(snap.vwap_spread_bps, BPS_SCALE));
    out.push(snap.depth_a_bps10.0.to_text());
    out.push(snap.depth_b_bps10.0.to_text());
    out.push(fields::flag_field(snap.book_crossed_a));
    out.push(fields::flag_field(snap.book_crossed_b));
    out.push(text::signed_text(snap.staleness_delta_ms));
    out.push(fields::signed_field(snap.exchange_latency_ms(snap.dex_a)));
    out.push(fields::signed_field(snap.exchange_latency_ms(snap.dex_b)));
    out.push(fields::number_field(snap.pipeline_latency_us()));
    proof {
        assert(text::views(out@) =~= row_of(*snap));
    }
    out
}

/// Basis points as text, rounded to [`BPS_SCALE`] digits behind the point.
pub fn fmt_bps(v: Decimal) -> (r: String)
    ensures
        r@ == fields::rounded(v, BPS_SCALE as nat),
{
    fields::rounded_text(v, BPS_SCALE)
}

/// The name of the file of a day and an instrument, such as `2023-11-14_BTC.csv`.
pub fn csv_file_name(date: Date, symbol: Symbol) -> (r: String)
    ensures
        r@ == date.text_of() + "_"@ + symbol.name() + ".csv"@,
{
    let mut out = date.to_text();
    out.append("_");
    out.append(symbol.as_str());
    out.append(".csv");
    out
}

/// What is to be done with a snapshot.
#[derive(Clone, Debug)]
pub enum Recording {
    /// It is left out.
    Skip,
    /// The row is to be written to the file of the day and the instrument.
    Write { date: Date, symbol: Symbol, row: Vec<String> },
}

/// Which snapshots have been written.
#[verifier::ext_equal]
pub struct Progress {
    pub mode: CsvMode,
    pub sample_interval_ms: u64,
    pub threshold_bps: Decimal,
    /// When the last row of each instrument was made, where snapshots are sampled.
    pub last_ms: Map<Symbol, u64>,
    pub written: u64,
    pub skipped: u64,
}

/// Whether the snapshot is to be written.
pub open spec fn wanted(p: Progress, snap: DivergenceSnapshot) -> bool {
    match p.mode {
        CsvMode::All => true,
        CsvMode::Sampled => !p.last_ms.contains_key(snap.symbol) || fields::span_ms(
            snap.computed_at_wall_ms,
            p.last_ms[snap.symbol],
        ) >= p.sample_interval_ms,
        CsvMode::Threshold => snap.executable_spread_bps.size().units() > p.threshold_bps.units(),
    }
}

/// The snapshot has been decided on.
pub open spec fn after_decision(p: Progress, snap: DivergenceSnapshot) -> Progress {
    if p.mode == CsvMode::Sampled && wanted(p, snap) {
        Progress { last_ms: p.last_ms.insert(snap.symbol, snap.computed_at_wall_ms), ..p }
    } else {
        p
    }
}

/// Decides which snapshots are written, and counts them.
pub struct CsvRecorder {
    mode: CsvMode,
    sample_interval_ms: u64,
    threshold_bps: Decimal,
    last_written_ms: BySymbol<u64>,
    rows_written: u64,
    rows_skipped: u64,
}

impl View for CsvRecorder {
    type V = Progress;

    closed spec fn view(&self) -> Progress {
        Progress {
            mode: self.mode,
            sample_interval_ms: self.sample_interval_ms,
            threshold_bps: self.threshold_bps,
            last_ms: self.last_written_ms@,
            written: self.rows_written,
            skipped: self.rows_skipped,
        }
    }
}

impl CsvRecorder {
    /// Nothing has been written.
    pub fn new(cfg: &RecordingConfig) -> (r: CsvRecorder)
        ensures
            r@ == (Progress {
                mode: cfg.csv_mode,
                sample_interval_ms: cfg.csv_sample_interval_ms,
                threshold_bps: cfg.csv_threshold_bps,
                last_ms: Map::empty(),
                written: 0,
                skipped: 0,
            }),
    {
        CsvRecorder {
            mode: cfg.csv_mode,
            sample_interval_ms: cfg.csv_sample_interval_ms,
            threshold_bps: cfg.csv_threshold_bps,
            last_written_ms: BySymbol::new(),
            rows_written: 0,
            rows_skipped: 0,
        }
    }

    /// How many rows were written.
    pub fn rows_written(&self) -> (r: u64)
        ensures
            r == self@.written,
    {
        self.rows_written
    }

    /// How many snapshots were left out.
    pub fn rows_skipped(&self) -> (r: u64)
        ensures
            r == self@.skipped,
    {
        self.rows_skipped
    }

    /// Whether the snapshot is to be written. Where snapshots are sampled, one that is to be written
    /// is noted, so it must then be written.
    pub fn should_record(&mut self, snap: &DivergenceSnapshot) -> (r: bool)
        ensures
            r == wanted(old(self)@, *snap),
            final(self)@ == after_decision(old(self)@, *snap),
    {
        match self.mode {
            CsvMode::All => true,
            CsvMode::Sampled => {
                let due = match self.last_written_ms.get(snap.symbol) {
                    Some(then) => {
                        fields::elapsed_ms(snap.computed_at_wall_ms, *then)
                            >= self.sample_interval_ms
                    },
                    None => true,
                };
                if due {
                    self.last_written_ms.set(snap.symbol, snap.computed_at_wall_ms);
                }
                due
            },
            CsvMode::Threshold => self.threshold_bps.is_less(snap.executable_spread_bps.abs()),
        }
    }

    /// Decides on a snapshot; `today` is the day where its own time is too far off. Once a row is
    /// written, [`CsvRecorder::row_written`] is to be called.
    pub fn record(&mut self, snap: &DivergenceSnapshot, today: Date) -> (r: Recording)
        requires
            old(self)@.skipped < u64::MAX,
        ensures
            final(self)@ == if wanted(old(self)@, *snap) {
                after_decision(old(self)@, *snap)
            } else {
                Progress {
                    skipped: (old(self)@.skipped + 1) as u64,
                    ..after_decision(old(self)@, *snap)
                }
            },
            r is Skip <==> !wanted(old(self)@, *snap),
            r matches Recording::Write { date, symbol, row } ==> symbol == snap.symbol && text::views(
                row@,
            ) == row_of(*snap) && crate::dates::is_date_of(snap.computed_at_wall_ms, today, date),
    {
        if !self.should_record(snap) {
            self.rows_skipped += 1;
            return Recording::Skip;
        }
        Recording::Write {
            date: wall_ms_to_date_or(snap.computed_at_wall_ms, today),
            symbol: snap.symbol,
            row: snapshot_to_row(snap),
        }
    }

    /// Notes that a row was written.
    pub fn row_written(&mut self)
        requires
            old(self)@.written < u64::MAX,
        ensures
            final(self)@ == (Progress { written: (old(self)@.written + 1) as u64, ..old(self)@ }),
    {
        self.rows_written += 1;
    }
}

/// A row has as many fields as there are columns.
pub proof fn law_rows_fit_the_header(snap: DivergenceSnapshot)
    ensures
        row_of(snap).len() == header().len(),
{
}

/// Where snapshots are sampled, two that are written are at least the interval apart, as long as the
/// clock does not go back.
pub proof fn law_samples_are_kept_apart(
    p: Progress,
    first: DivergenceSnapshot,
    second: DivergenceSnapshot,
)
    requires
        p.mode == CsvMode::Sampled,
        p.sample_interval_ms > 0,
        first.symbol == second.symbol,
        wanted(p, first),
        wanted(after_decision(p, first), second),
    ensures
        second.computed_at_wall_ms >= first.computed_at_wall_ms + p.sample_interval_ms,
{
}

/// Where snapshots are sampled, one instrument does not hold back another.
pub proof fn law_instruments_are_sampled_apart(
    p: Progress,
    first: DivergenceSnapshot,
    second: DivergenceSnapshot,
)
    requires
        first.symbol != second.symbol,
    ensures
        wanted(after_decision(p, first), second) == wanted(p, second),
{
}

/// No two columns have the same name.
pub proof fn law_columns_are_distinct()
    ensures
        header().no_duplicates(),
{
    reveal_strlit("timestamp_ms");
    reveal_strlit("symbol");
    reveal_strlit("dex_a");
    reveal_strlit("dex_b");
    reveal_strlit("mid_a");
    reveal_strlit("mid_b");
    reveal_strlit("best_bid_a");
    reveal_strlit("best_ask_a");
    reveal_strlit("best_bid_b");
    reveal_strlit("best_ask_b");
    reveal_strlit("raw_spread_bps");
    reveal_strlit("executable_spread_bps");
    reveal_strlit("vwap_spread_bps");
    reveal_strlit("depth_a_bps10");
    reveal_strlit("depth_b_bps10");
    reveal_strlit("book_crossed_a");
    reveal_strlit("book_crossed_b");
    reveal_strlit("staleness_delta_ms");
    reveal_strlit("latency_a_ms");
    reveal_strlit("latency_b_ms");
    reveal_strlit("pipeline_latency_us");
    let h = header();
    assert(h[0].len() == 12 && h[0][0] == 't');
    assert(h[1].len() == 6);
    assert(h[2].len() == 5 && h[2][0] == 'd' && h[2][4] == 'a');
    assert(h[3].len() == 5 && h[3][0] == 'd' && h[3][4] == 'b');
    assert(h[4].len() == 5 && h[4][0] == 'm' && h[4][4] == 'a');
    assert(h[5].len() == 5 && h[5][0] == 'm' && h[5][4] == 'b');
    assert(h[6].len() == 10 && h[6][5] == 'b' && h[6][9] == 'a');
    assert(h[7].len() == 10 && h[7][5] == 'a' && h[7][9] == 'a');
    assert(h[8].len() == 10 && h[8][5] == 'b' && h[8][9] == 'b');
    assert(h[9].len() == 10 && h[9][5] == 'a' && h[9][9] == 'b');
    assert(h[10].len() == 14 && h[10][0] == 'r');
    assert(h[11].len() == 21);
    assert(h[12].len() == 15);
    assert(h[13].len() == 13 && h[13][6] == 'a');
    assert(h[14].len() == 13 && h[14][6] == 'b');
    assert(h[15].len() == 14 && h[15][0] == 'b' && h[15][13] == 'a');
    assert(h[16].len() == 14 && h[16][0] == 'b' && h[16][13] == 'b');
    assert(h[17].len() == 18);
    assert(h[18].len() == 12 && h[18][0] == 'l' && h[18][8] == 'a');
    assert(h[19].len() == 12 && h[19][0] == 'l' && h[19][8] == 'b');
    assert(h[20].len() == 19);
    assert forall|i: int, j: int| 0 <= i < h.len() && 0 <= j < h.len() && i != j implies h[i]
        != h[j] by {}
}

/// Every field stands under the name of what it says of the snapshot: the differences rounded to four
/// digits behind the point, all else as it is. The two latencies are those of the messages of the two
/// venues.
pub proof fn law_fields_stand_under_their_names(snap: DivergenceSnapshot, i: int)
    requires
        snap.dex_a != snap.dex_b,
        0 <= i < header().len(),
    ensures
        header()[i] == "timestamp_ms"@
            ==> row_of(snap)[i] == text::digits(snap.computed_at_wall_ms as nat),
        header()[i] == "symbol"@ ==> row_of(snap)[i] == snap.symbol.name(),
        header()[i] == "dex_a"@ ==> row_of(snap)[i] == snap.dex_a.name(),
        header()[i] == "dex_b"@ ==> row_of(snap)[i] == snap.dex_b.name(),
        header()[i] == "mid_a"@ ==> row_of(snap)[i] == decimal::decimal_text(snap.mid_a.0),
        header()[i] == "mid_b"@ ==> row_of(snap)[i] == decimal::decimal_text(snap.mid_b.0),
        header()[i] == "best_bid_a"@
            ==> row_of(snap)[i] == decimal::decimal_text(snap.best_bid_a.0),
        header()[i] == "best_ask_a"@
            ==> row_of(snap)[i] == decimal::decimal_text(snap.best_ask_a.0),
        header()[i] == "best_bid_b"@
            ==> row_of(snap)[i] == decimal::decimal_text(snap.best_bid_b.0),
        header()[i] == "best_ask_b"@
            ==> row_of(snap)[i] == decimal::decimal_text(snap.best_ask_b.0),
        header()[i] == "raw_spread_bps"@
            ==> row_of(snap)[i] == fields::rounded(snap.raw_spread_bps, 4),
        header()[i] == "executable_spread_bps"@
            ==> row_of(snap)[i] == fields::rounded(snap.executable_spread_bps, 4),
        header()[i] == "vwap_spread_bps"@
            ==> row_of(snap)[i] == fields::rounded_or_empty(snap.vwap_spread_bps, 4),
        header()[i] == "depth_a_bps10"@
            ==> row_of(snap)[i] == decimal::decimal_text(snap.depth_a_bps10.0),
        header()[i] == "depth_b_bps10"@
            ==> row_of(snap)[i] == decimal::decimal_text(snap.depth_b_bps10.0),
        header()[i] == "book_crossed_a"@ ==> row_of(snap)[i] == fields::flag(snap.book_crossed_a),
        header()[i] == "book_crossed_b"@ ==> row_of(snap)[i] == fields::flag(snap.book_crossed_b),
        header()[i] == "staleness_delta_ms"@
            ==> row_of(snap)[i] == text::signed(snap.staleness_delta_ms as int),
        header()[i] == "latency_a_ms"@
            ==> row_of(snap)[i] == fields::signed_or_empty(snap.trace_a.exchange_delay_ms()),
        header()[i] == "latency_b_ms"@
            ==> row_of(snap)[i] == fields::signed_or_empty(snap.trace_b.exchange_delay_ms()),
        header()[i] == "pipeline_latency_us"@ ==> row_of(snap)[i] == match snap.pipeline_us() {
            Some(us) => text::digits(us as nat),
            None => Seq::empty(),
        },
{
    law_columns_are_distinct();
    let h = header();
    assert(h[0] == "timestamp_ms"@);
    assert(h[1] == "symbol"@);
    assert(h[2] == "dex_a"@);
    assert(h[3] == "dex_b"@);
    assert(h[4] == "mid_a"@);
    assert(h[5] == "mid_b"@);
    assert(h[6] == "best_bid_a"@);
    assert(h[7] == "best_ask_a"@);
    assert(h[8] == "best_bid_b"@);
    assert(h[9] == "best_ask_b"@);
    assert(h[10] == "raw_spread_bps"@);
    assert(h[11] == "executable_spread_bps"@);
    assert(h[12] == "vwap_spread_bps"@);
    assert(h[13] == "depth_a_bps10"@);
    assert(h[14] == "depth_b_bps10"@);
    assert(h[15] == "book_crossed_a"@);
    assert(h[16] == "book_crossed_b"@);
    assert(h[17] == "staleness_delta_ms"@);
    assert(h[18] == "latency_a_ms"@);
    assert(h[19] == "latency_b_ms"@);
    assert(h[20] == "pipeline_latency_us"@);
}

/// Which snapshots are written: all of them; or those whose executable difference lies beyond the
/// threshold, either way; or of each instrument the first one, and then those that are the interval
/// behind the last one that was written.
pub proof fn law_what_is_written(p: Progress, snap: DivergenceSnapshot)
    requires
        snap.executable_spread_bps.valid(),
    ensures
        p.mode == CsvMode::All ==> wanted(p, snap),
        p.mode == CsvMode::Threshold ==> (wanted(p, snap) <==> snap.executable_spread_bps.units()
            > p.threshold_bps.units() || -snap.executable_spread_bps.units()
            > p.threshold_bps.units()),
        p.mode == CsvMode::Sampled && !p.last_ms.contains_key(snap.symbol) ==> wanted(p, snap),
        p.mode == CsvMode::Sampled && p.last_ms.contains_key(snap.symbol)
            && snap.computed_at_wall_ms >= p.last_ms[snap.symbol] ==> (wanted(p, snap)
            <==> snap.computed_at_wall_ms >= p.last_ms[snap.symbol] + p.sample_interval_ms),
{
    decimal::lemma_decimal_fields(snap.executable_spread_bps, 0);
}

/// A decision notes the time of a sampled snapshot that is written, under its instrument, and nothing
/// else.
pub proof fn law_decision_notes_the_sample(p: Progress, snap: DivergenceSnapshot, symbol: Symbol)
    ensures
        ({
            let after = after_decision(p, snap);
            &&& after == (Progress { last_ms: after.last_ms, ..p })
            &&& symbol != snap.symbol || p.mode != CsvMode::Sampled || !wanted(p, snap) ==> (
            after.last_ms.contains_key(symbol) <==> p.last_ms.contains_key(symbol)) && (
            p.last_ms.contains_key(symbol) ==> after.last_ms[symbol] == p.last_ms[symbol])
            &&& p.mode == CsvMode::Sampled && wanted(p, snap) ==> after.last_ms.contains_key(
                snap.symbol,
            ) && after.last_ms[snap.symbol] == snap.computed_at_wall_ms
        }),
{
}

} // verus!

//! The rows of funding rates: one of each venue, not of each pair, since rates hardly ever change.
//!
//! A rate is written when it has changed. One that has not is written after a while all the same, so
//! that missing data can be told from a collector that has stopped.

use std::collections::HashMap;

use vstd::prelude::*;

use crate::config::RecordingConfig;
use crate::dates::{Date, wall_ms_to_date_or};
use crate::decimal;
use crate::decimal::{Decimal, Overflow};
use crate::funding::FundingRate;
use crate::latest;
use crate::num::Quantity;
use crate::recorder::fields;
use crate::symbol::{Dex, Symbol};
use crate::text;

verus! {

/// How many digits behind the point a rate has.
pub const RATE_SCALE: u32 = 12;

/// How many digits behind the point a rate of a year has, in per cent.
pub const PCT_SCALE: u32 = 6;

/// How many digits behind the point the ratio of volume to open interest has.
pub const RATIO_SCALE: u32 = 6;

/// The names of the columns.
pub open spec fn header() -> Seq<Seq<char>> {
    seq![
        "timestamp_ms"@,
        "symbol"@,
        "dex"@,
        "current_rate"@,
        "predicted_rate"@,
        "interval_hours"@,
        "annualized_pct"@,
        "next_funding_time_ms"@,
        "index_price"@,
        "mark_price"@,
        "exchange_ts_ms"@,
        "latency_ms"@,
        "open_interest"@,
        "volume_24h_usd"@,
        "volume_oi_ratio"@,
    ]
}

/// The quantity, or nothing.
pub open spec fn quantity_or_empty(q: Option<Quantity>) -> Seq<char> {
    match q {
        Some(q) => decimal::decimal_text(q.0),
        None => Seq::empty(),
    }
}

/// The row of a rate, in the order of the columns, with its rate of a year and its ratio of volume to
/// open interest.
pub open spec fn row_with(
    rate: FundingRate,
    annualized_pct: Option<Decimal>,
    ratio: Option<Decimal>,
) -> Seq<Seq<char>> {
    seq![
        text::digits(rate.trace.received_wall_ms as nat),
        rate.symbol.name(),
        rate.dex.name(),
        fields::rounded(rate.current_rate, RATE_SCALE as nat),
        fields::rounded_or_empty(rate.predicted_rate, RATE_SCALE as nat),
        fields::decimal_or_empty(rate.interval_hours),
        fields::rounded_or_empty(annualized_pct, PCT_SCALE as nat),
        fields::number_or_empty(rate.next_funding_time_ms),
        fields::price_or_empty(rate.index_price),
        fields::price_or_empty(rate.mark_price),
        fields::number_or_empty(rate.trace.exchange_ts_ms),
        fields::signed_or_empty(rate.trace.exchange_delay_ms()),
        quantity_or_empty(rate.open_interest),
        fields::decimal_or_empty(rate.volume_24h_usd),
        fields::rounded_or_empty(ratio, RATIO_SCALE as nat),
    ]
}

/// The row of a rate, in the order of the columns.
pub open spec fn row_of(rate: FundingRate) -> Result<Seq<Seq<char>>, Overflow> {
    match (rate.annualized_pct_outcome(), rate.stats_of().volume_oi_ratio_outcome()) {
        (Ok(annualized_pct), Ok(ratio)) => Ok(row_with(rate, annualized_pct, ratio)),
        _ => Err(Overflow),
    }
}

/// The names of the columns.
pub fn funding_csv_header() -> (r: Vec<String>)
    ensures
        text::views(r@) == header(),
{
    let mut out: Vec<String> = Vec::new();
    out.push("timestamp_ms".to_owned());
    out.push("symbol".to_owned());
    out.push("dex".to_owned());
    out.push("current_rate".to_owned());
    out.push("predicted_rate".to_owned());
    out.push("interval_hours".to_owned());
    out.push("annualized_pct".to_owned());
    out.push("next_funding_time_ms".to_owned());
    out.push("index_price".to_owned());
    out.push("mark_price".to_owned());
    out.push("exchange_ts_ms".to_owned());
    out.push("latency_ms".to_owned());
    out.push("open_interest".to_owned());
    out.push("volume_24h_usd".to_owned());
    out.push("volume_oi_ratio".to_owned());
    proof {
        assert(text::views(out@) =~= header());
    }
    out
}

/// The row of a rate, in the order of the columns.
pub fn checked_funding_to_row(rate: &FundingRate) -> (r: Result<Vec<String>, Overflow>)
    ensures
        r is Ok <==> row_of(*rate) is Ok,
        r matches Ok(row) ==> row_of(*rate) == Ok::<Seq<Seq<char>>, Overflow>(text::views(row@)),
{
    let annualized_pct = rate.checked_annualized_pct()?;
    let ratio = rate.market_stats().checked_volume_oi_ratio()?;
    let mut out: Vec<String> = Vec::new();
    out.push(text::number_text(rate.trace.received_wall_ms));
    out.push(rate.symbol.as_str().to_owned());
    out.push(rate.dex.as_str().to_owned());
    out.push(fields::rounded_text(rate.current_rate, RATE_SCALE));
    out.push(fields::rounded_field(rate.predicted_rate, RATE_SCALE));
    out.push(fields::decimal_field(rate.interval_hours));
    out.push(fields::rounded_field(annualized_pct, PCT_SCALE));
    out.push(fields::number_field(rate.next_funding_time_ms));
    out.push(fields::price_field(rate.index_price));
    out.push(fields::price_field(rate.mark_price));
    out.push(fields::number_field(rate.trace.exchange_ts_ms));
    out.push(fields::signed_field(rate.latency_ms()));
    out.push(
        fields::decimal_field(
            match rate.open_interest {
                Some(q) => Some(q.0),
                None => None,
            },
        ),
    );
    out.push(fields::decimal_field(rate.volume_24h_usd));
    out.push(fields::rounded_field(ratio, RATIO_SCALE));
    proof {
        assert(text::views(out@) =~= row_with(*rate, annualized_pct, ratio));
    }
    Ok(out)
}

/// The row of a rate, in the order of the columns.
pub fn funding_to_row(rate: &FundingRate) -> (r: Vec<String>)
    requires
        row_of(*rate) is Ok,
    ensures
        row_of(*rate) == Ok::<Seq<Seq<char>>, Overflow>(text::views(r@)),
{
    match checked_funding_to_row(rate) {
        Ok(row) => row,
        Err(_) => Vec::new(),
    }
}

/// The name of the file of a day and an instrument, such as `2023-11-14_BTC_funding.csv`.
pub fn funding_file_name(date: Date, symbol: Symbol) -> (r: String)
    ensures
        r@ == date.text_of() + "_"@ + symbol.name() + "_funding.csv"@,
{
    let mut out = date.to_text();
    out.append("_");
    out.append(symbol.as_str());
    out.append("_funding.csv");
    out
}

/// What is to be done with a rate.
#[derive(Clone, Debug)]
pub enum Recording {
    /// It is left out.
    Skip,
    /// The row is to be written to the file of the day and the instrument.
    Write { date: Date, symbol: Symbol, row: Vec<String> },
}

/// What was last written of a venue and an instrument.
#[derive(Clone, Copy, Debug, PartialEq, Eq, Structural)]
pub struct LastRecord {
    pub current_rate: Decimal,
    pub written_at_wall_ms: u64,
}

/// Which rates have been written.
#[verifier::ext_equal]
pub struct Progress {
    /// After how long a rate is written though it has not changed.
    pub heartbeat_ms: u64,
    pub last: Map<(Dex, Symbol), LastRecord>,
    pub written: u64,
    pub skipped: u64,
}

/// `secs` seconds in milliseconds, as many as a number can hold.
pub open spec fn millis_of(secs: u64) -> u64 {
    if secs * 1000 > u64::MAX {
        u64::MAX
    } else {
        (secs * 1000) as u64
    }
}

/// Whether the rate is to be written: it is the first of its venue and instrument, or it has
/// changed, or the last one was written long enough ago.
pub open spec fn wanted(p: Progress, rate: FundingRate) -> bool {
    let key = (rate.dex, rate.symbol);
    !p.last.contains_key(key) || p.last[key].current_rate != rate.current_rate || fields::span_ms(
        rate.trace.received_wall_ms,
        p.last[key].written_at_wall_ms,
    ) >= p.heartbeat_ms
}

/// The rate has been decided on.
pub open spec fn after_decision(p: Progress, rate: FundingRate) -> Progress {
    if wanted(p, rate) {
        Progress {
            last: p.last.insert(
                (rate.dex, rate.symbol),
                LastRecord {
                    current_rate: rate.current_rate,
                    written_at_wall_ms: rate.trace.received_wall_ms,
                },
            ),
            ..p
        }
    } else {
        p
    }
}

/// Decides which rates are written, and counts them.
pub struct FundingRecorder {
    heartbeat_ms: u64,
    last: HashMap<u64, LastRecord>,
    rows_written: u64,
    rows_skipped: u64,
}

impl View for FundingRecorder {
    type V = Progress;

    closed spec fn view(&self) -> Progress {
        Progress {
            heartbeat_ms: self.heartbeat_ms,
            last: Map::new(
                |key: (Dex, Symbol)| self.last@.contains_key(latest::code(key)),
                |key: (Dex, Symbol)| self.last@[latest::code(key)],
            ),
            written: self.rows_written,
            skipped: self.rows_skipped,
        }
    }
}

impl FundingRecorder {
    /// Nothing has been written.
    pub fn new(cfg: &RecordingConfig) -> (r: FundingRecorder)
        ensures
            r@ == (Progress {
                heartbeat_ms: millis_of(cfg.funding.heartbeat_interval_secs),
                last: Map::empty(),
                written: 0,
                skipped: 0,
            }),
    {
        let secs: u64 = cfg.funding.heartbeat_interval_secs;
        let heartbeat_ms: u64 = if secs > u64::MAX / 1000 {
            u64::MAX
        } else {
            secs * 1000
        };
        let r = FundingRecorder {
            heartbeat_ms,
            last: HashMap::new(),
            rows_written: 0,
            rows_skipped: 0,
        };
        proof {
            assert(r@.last =~= Map::empty());
        }
        r
    }

    /// How many rows were written.
    pub fn rows_written(&self) -> (r: u64)
        ensures
            r == self@.written,
    {
        self.rows_written
    }

    /// How many rates were left out.
    pub fn rows_skipped(&self) -> (r: u64)
        ensures
            r == self@.skipped,
    {
        self.rows_skipped
    }

    /// Whether the rate is to be written. One that is to be written is noted, so it must then be
    /// written.
    pub fn should_record(&mut self, rate: &FundingRate) -> (r: bool)
        ensures
            r == wanted(old(self)@, *rate),
            final(self)@ == after_decision(old(self)@, *rate),
    {
        broadcast use vstd::std_specs::hash::group_hash_axioms;

        let key: u64 = latest::key_of(rate.dex, rate.symbol);
        let now_ms: u64 = rate.trace.received_wall_ms;
        let write = match self.last.get(&key) {
            None => true,
            Some(prev) => {
                prev.current_rate != rate.current_rate || fields::elapsed_ms(
                    now_ms,
                    prev.written_at_wall_ms,
                ) >= self.heartbeat_ms
            },
        };
        if write {
            self.last.insert(
                key,
                LastRecord { current_rate: rate.current_rate, written_at_wall_ms: now_ms },
            );
            proof {
                assert forall|k: (Dex, Symbol)| #[trigger] latest::code(k) == key <==> k == (
                    rate.dex,
                    rate.symbol,
                ) by {
                    latest::lemma_code_is_unique(k, (rate.dex, rate.symbol));
                }
                assert(self@.last =~= after_decision(old(self)@, *rate).last);
            }
        }
        write
    }

    /// Decides on a rate; `today` is the day where its own time is too far off. Once a row is
    /// written, [`FundingRecorder::row_written`] is to be called. Fails where the numbers of the row
    /// cannot be expressed; the rate then counts as written.
    pub fn record(&mut self, rate: &FundingRate, today: Date) -> (r: Result<Recording, Overflow>)
        requires
            old(self)@.skipped < u64::MAX,
        ensures
            final(self)@ == if wanted(old(self)@, *rate) {
                after_decision(old(self)@, *rate)
            } else {
                Progress { skipped: (old(self)@.skipped + 1) as u64, ..old(self)@ }
            },
            r is Err <==> wanted(old(self)@, *rate) && row_of(*rate) is Err,
            r matches Ok(Recording::Skip) <==> !wanted(old(self)@, *rate),
            r matches Ok(Recording::Write { date, symbol, row }) ==> symbol == rate.symbol && row_of(
                *rate,
            ) == Ok::<Seq<Seq<char>>, Overflow>(text::views(row@)) && crate::dates::is_date_of(
                rate.trace.received_wall_ms,
                today,
                date,
            ),
    {
        if !self.should_record(rate) {
            self.rows_skipped += 1;
            return Ok(Recording::Skip);
        }
        let row = checked_funding_to_row(rate)?;
        Ok(
            Recording::Write {
                date: wall_ms_to_date_or(rate.trace.received_wall_ms, today),
                symbol: rate.symbol,
                row,
            },
        )
    }

    /// Notes that a row was written.
    pub fn row_written(&mut self)
        requires
            old(self)@.written < u64::MAX,
        ensures
            final(self)@ == (Progress { written: (old(self)@.written + 1) as u64, ..old(self)@ }),
    {
        self.rows_written += 1;
    }
}

/// A row has as many fields as there are columns.
pub proof fn law_rows_fit_the_header(rate: FundingRate)
    ensures
        row_of(rate) matches Ok(row) ==> row.len() == header().len(),
{
}

/// A rate that differs from the last one of its venue and instrument is written.
pub proof fn law_changes_are_written(p: Progress, first: FundingRate, second: FundingRate)
    requires
        first.dex == second.dex,
        first.symbol == second.symbol,
        wanted(p, first),
        first.current_rate != second.current_rate,
    ensures
        wanted(after_decision(p, first), second),
{
}

/// A rate that has not changed is written again exactly where the span is over.
pub proof fn law_unchanged_rates_wait_for_the_heartbeat(
    p: Progress,
    first: FundingRate,
    second: FundingRate,
)
    requires
        first.dex == second.dex,
        first.symbol == second.symbol,
        wanted(p, first),
        first.current_rate == second.current_rate,
    ensures
        wanted(after_decision(p, first), second) <==> fields::span_ms(
            second.trace.received_wall_ms,
            first.trace.received_wall_ms,
        ) >= p.heartbeat_ms,
{
}

/// Rates of other venues and instruments do not matter.
pub proof fn law_venues_and_instruments_are_apart(
    p: Progress,
    first: FundingRate,
    second: FundingRate,
)
    requires
        first.dex != second.dex || first.symbol != second.symbol,
    ensures
        wanted(after_decision(p, first), second) == wanted(p, second),
{
}

/// No two columns have the same name.
pub proof fn law_columns_are_distinct()
    ensures
        header().no_duplicates(),
{
    reveal_strlit("timestamp_ms");
    reveal_strlit("symbol");
    reveal_strlit("dex");
    reveal_strlit("current_rate");
    reveal_strlit("predicted_rate");
    reveal_strlit("interval_hours");
    reveal_strlit("annualized_pct");
    reveal_strlit("next_funding_time_ms");
    reveal_strlit("index_price");
    reveal_strlit("mark_price");
    reveal_strlit("exchange_ts_ms");
    reveal_strlit("latency_ms");
    reveal_strlit("open_interest");
    reveal_strlit("volume_24h_usd");
    reveal_strlit("volume_oi_ratio");
    let h = header();
    assert(h[0].len() == 12 && h[0][0] == 't');
    assert(h[1].len() == 6);
    assert(h[2].len() == 3);
    assert(h[3].len() == 12 && h[3][0] == 'c');
    assert(h[4].len() == 14 && h[4][0] == 'p');
    assert(h[5].len() == 14 && h[5][0] == 'i');
    assert(h[6].len() == 14 && h[6][0] == 'a');
    assert(h[7].len() == 20);
    assert(h[8].len() == 11);
    assert(h[9].len() == 10 && h[9][0] == 'm');
    assert(h[10].len() == 14 && h[10][0] == 'e');
    assert(h[11].len() == 10 && h[11][0] == 'l');
    assert(h[12].len() == 13);
    assert(h[13].len() == 14 && h[13][0] == 'v');
    assert(h[14].len() == 15);
    assert forall|i: int, j: int| 0 <= i < h.len() && 0 <= j < h.len() && i != j implies h[i]
        != h[j] by {}
}

/// Every field stands under the name of what it says of the rate: the rates rounded to twelve digits
/// behind the point, the rate of a year in per cent and the ratio of volume to open interest to six,
/// all else as it is; what is not known is left empty.
pub proof fn law_fields_stand_under_their_names(
    rate: FundingRate,
    row: Seq<Seq<char>>,
    pct: Option<Decimal>,
    ratio: Option<Decimal>,
    i: int,
)
    requires
        0 <= i < header().len(),
        row_of(rate) == Ok::<Seq<Seq<char>>, Overflow>(row),
        rate.annualized_pct_outcome() == Ok::<Option<Decimal>, Overflow>(pct),
        rate.stats_of().volume_oi_ratio_outcome() == Ok::<Option<Decimal>, Overflow>(ratio),
    ensures
        header()[i] == "timestamp_ms"@
            ==> row[i] == text::digits(rate.trace.received_wall_ms as nat),
        header()[i] == "symbol"@ ==> row[i] == rate.symbol.name(),
        header()[i] == "dex"@ ==> row[i] == rate.dex.name(),
        header()[i] == "current_rate"@ ==> row[i] == fields::rounded(rate.current_rate, 12),
        header()[i] == "predicted_rate"@
            ==> row[i] == fields::rounded_or_empty(rate.predicted_rate, 12),
        header()[i] == "interval_hours"@
            ==> row[i] == fields::decimal_or_empty(rate.interval_hours),
        header()[i] == "annualized_pct"@ ==> row[i] == fields::rounded_or_empty(pct, 6),
        header()[i] == "next_funding_time_ms"@
            ==> row[i] == fields::number_or_empty(rate.next_funding_time_ms),
        header()[i] == "index_price"@ ==> row[i] == fields::price_or_empty(rate.index_price),
        header()[i] == "mark_price"@ ==> row[i] == fields::price_or_empty(rate.mark_price),
        header()[i] == "exchange_ts_ms"@
            ==> row[i] == fields::number_or_empty(rate.trace.exchange_ts_ms),
        header()[i] == "latency_ms"@
            ==> row[i] == fields::signed_or_empty(rate.trace.exchange_delay_ms()),
        header()[i] == "open_interest"@ ==> row[i] == quantity_or_empty(rate.open_interest),
        header()[i] == "volume_24h_usd"@
            ==> row[i] == fields::decimal_or_empty(rate.volume_24h_usd),
        header()[i] == "volume_oi_ratio"@ ==> row[i] == fields::rounded_or_empty(ratio, 6),
{
    law_columns_are_distinct();
    let h = header();
    assert(h[0] == "timestamp_ms"@);
    assert(h[1] == "symbol"@);
    assert(h[2] == "dex"@);
    assert(h[3] == "current_rate"@);
    assert(h[4] == "predicted_rate"@);
    assert(h[5] == "interval_hours"@);
    assert(h[6] == "annualized_pct"@);
    assert(h[7] == "next_funding_time_ms"@);
    assert(h[8] == "index_price"@);
    assert(h[9] == "mark_price"@);
    assert(h[10] == "exchange_ts_ms"@);
    assert(h[11] == "latency_ms"@);
    assert(h[12] == "open_interest"@);
    assert(h[13] == "volume_24h_usd"@);
    assert(h[14] == "volume_oi_ratio"@);
}

/// The first rate of a venue and an instrument is written. A decision to write notes the rate and its
/// time under its venue and instrument; nothing else is noted.
pub proof fn law_decision_notes_the_rate(p: Progress, rate: FundingRate, key: (Dex, Symbol))
    ensures
        ({
            let own = (rate.dex, rate.symbol);
            let after = after_decision(p, rate);
            &&& !p.last.contains_key(own) ==> wanted(p, rate)
            &&& after == (Progress { last: after.last, ..p })
            &&& key != own || !wanted(p, rate) ==> (after.last.contains_key(key)
                <==> p.last.contains_key(key)) && (p.last.contains_key(key) ==> after.last[key]
                == p.last[key])
            &&& wanted(p, rate) ==> after.last.contains_key(own) && after.last[own].current_rate
                == rate.current_rate && after.last[own].written_at_wall_ms
                == rate.trace.received_wall_ms
        }),
{
}

} // verus!

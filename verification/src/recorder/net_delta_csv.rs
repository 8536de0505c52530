//! The rows of net positions. Every check is written, whether anything has changed or not: how long
//! nothing is out of line is of interest too.

use vstd::prelude::*;

use crate::by_dex::ByDex;
use crate::dates::{Date, wall_ms_to_date_or};
use crate::decimal;
use crate::decimal::Decimal;
use crate::num::{Price, Quantity};
use crate::recorder::fields;
use crate::symbol;
use crate::symbol::{Dex, Symbol};
use crate::text;

verus! {

/// How many digits behind the point dollars have.
pub const USD_SCALE: u32 = 4;

/// What a check led to.
#[derive(Clone, Copy, Debug, PartialEq, Eq, Structural)]
pub enum NetDeltaAction {
    Nothing,
    Warn,
    Rebalance,
    HaltSoft,
    Halt,
    /// There was no price, so nothing could be decided.
    PriceUnavailable,
}

impl NetDeltaAction {
    /// The name of the action.
    pub open spec fn name(self) -> Seq<char> {
        match self {
            NetDeltaAction::Nothing => "none"@,
            NetDeltaAction::Warn => "warned"@,
            NetDeltaAction::Rebalance => "rebalanced"@,
            NetDeltaAction::HaltSoft => "halted_soft"@,
            NetDeltaAction::Halt => "halted"@,
            NetDeltaAction::PriceUnavailable => "price_unavailable"@,
        }
    }

    /// The name of the action.
    pub fn as_str(&self) -> (r: &'static str)
        ensures
            r@ == self.name(),
    {
        match self {
            NetDeltaAction::Nothing => "none",
            NetDeltaAction::Warn => "warned",
            NetDeltaAction::Rebalance => "rebalanced",
            NetDeltaAction::HaltSoft => "halted_soft",
            NetDeltaAction::Halt => "halted",
            NetDeltaAction::PriceUnavailable => "price_unavailable",
        }
    }
}

/// The outcome of a check of one instrument.
pub struct NetDeltaStatus {
    pub checked_at_wall_ms: u64,
    pub symbol: Symbol,
    /// The positions that are known.
    pub positions: ByDex<Quantity>,
    /// The sum of the positions.
    pub net_delta: Quantity,
    /// The sum in dollars.
    pub net_delta_usd: Option<Decimal>,
    /// The price by which it was turned into dollars.
    pub mark_price: Option<Price>,
    /// How far the positions are from what they should be, in dollars.
    pub drift_usd: Option<Decimal>,
    pub action: NetDeltaAction,
}

/// The names of the columns of the first `n` venues.
pub open spec fn position_columns(n: nat) -> Seq<Seq<char>>
    decreases n,
{
    if n == 0 {
        Seq::empty()
    } else {
        position_columns((n - 1) as nat).push("pos_"@ + symbol::all_dexes()[n - 1].name())
    }
}

/// The names of the columns: the venues stand in canonical order.
pub open spec fn header() -> Seq<Seq<char>> {
    seq!["timestamp_ms"@, "symbol"@] + position_columns(5) + seq![
        "net_delta"@,
        "net_delta_usd"@,
        "mark_price"@,
        "drift_usd"@,
        "action"@,
    ]
}

/// The positions on the first `n` venues. One that is not known is left empty, which is not the same
/// as none.
pub open spec fn position_fields(positions: Map<Dex, Quantity>, n: nat) -> Seq<Seq<char>>
    decreases n,
{
    if n == 0 {
        Seq::empty()
    } else {
        let dex = symbol::all_dexes()[n - 1];
        position_fields(positions, (n - 1) as nat).push(
            if positions.contains_key(dex) {
                decimal::decimal_text(positions[dex].0)
            } else {
                Seq::empty()
            },
        )
    }
}

/// The row of a status, in the order of the columns.
pub open spec fn row_of(status: NetDeltaStatus) -> Seq<Seq<char>> {
    seq![text::digits(status.checked_at_wall_ms as nat), status.symbol.name()] + position_fields(
        status.positions@,
        5,
    ) + seq![
        decimal::decimal_text(status.net_delta.0),
        fields::rounded_or_empty(status.net_delta_usd, USD_SCALE as nat),
        fields::price_or_empty(status.mark_price),
        fields::rounded_or_empty(status.drift_usd, USD_SCALE as nat),
        status.action.name(),
    ]
}

/// The names of the columns: the venues stand in canonical order.
pub fn net_delta_csv_header() -> (r: Vec<String>)
    ensures
        text::views(r@) == header(),
{
    let all = Dex::ALL;
    let mut out: Vec<String> = Vec::new();
    out.push("timestamp_ms".to_owned());
    out.push("symbol".to_owned());
    let ghost first = seq!["timestamp_ms"@, "symbol"@];
    let mut i: usize = 0;
    proof {
        assert(all@ =~= symbol::all_dexes());
        assert(text::views(out@) =~= first + position_columns(0));
    }
    while i < 5
        invariant
            i <= 5,
            all@ == symbol::all_dexes(),
            text::views(out@) == first + position_columns(i as nat),
        decreases 5 - i,
    {
        let ghost before = text::views(out@);
        let mut name = "pos_".to_owned();
        name.append(all[i].as_str());
        out.push(name);
        proof {
            assert(text::views(out@) =~= before.push(name@));
            assert(position_columns((i + 1) as nat) == position_columns(i as nat).push(name@));
            assert(text::views(out@) =~= first + position_columns((i + 1) as nat));
        }
        i += 1;
    }
    let ghost before = text::views(out@);
    out.push("net_delta".to_owned());
    out.push("net_delta_usd".to_owned());
    out.push("mark_price".to_owned());
    out.push("drift_usd".to_owned());
    out.push("action".to_owned());
    proof {
        assert(text::views(out@) =~= before + seq![
            "net_delta"@,
            "net_delta_usd"@,
            "mark_price"@,
            "drift_usd"@,
            "action"@,
        ]);
    }
    out
}

/// The row of a status, in the order of the columns.
pub fn status_to_row(status: &NetDeltaStatus) -> (r: Vec<String>)
    ensures
        text::views(r@) == row_of(*status),
{
    let all = Dex::ALL;
    let mut out: Vec<String> = Vec::new();
    out.push(text::number_text(status.checked_at_wall_ms));
    out.push(status.symbol.as_str().to_owned());
    let ghost first = seq![
        text::digits(status.checked_at_wall_ms as nat),
        status.symbol.name(),
    ];
    let mut i: usize = 0;
    proof {
        assert(all@ =~= symbol::all_dexes());
        assert(text::views(out@) =~= first + position_fields(status.positions@, 0));
    }
    while i < 5
        invariant
            i <= 5,
            all@ == symbol::all_dexes(),
            text::views(out@) == first + position_fields(status.positions@, i as nat),
        decreases 5 - i,
    {
        let ghost before = text::views(out@);
        let field = fields::decimal_field(
            match status.positions.get(all[i]) {
                Some(q) => Some(q.0),
                None => None,
            },
        );
        out.push(field);
        proof {
            assert(text::views(out@) =~= before.push(field@));
            assert(position_fields(status.positions@, (i + 1) as nat) == position_fields(
                status.positions@,
                i as nat,
            ).push(field@));
            assert(text::views(out@) =~= first + position_fields(
                status.positions@,
                (i + 1) as nat,
            ));
        }
        i += 1;
    }
    let ghost before = text::views(out@);
    out.push(status.net_delta.0.to_text());
    out.push(fields::rounded_field(status.net_delta_usd, USD_SCALE));
    out.push(fields::price_field(status.mark_price));
    out.push(fields::rounded_field(status.drift_usd, USD_SCALE));
    out.push(status.action.as_str().to_owned());
    proof {
        assert(text::views(out@) =~= before + seq![
            decimal::decimal_text(status.net_delta.0),
            fields::rounded_or_empty(status.net_delta_usd, USD_SCALE as nat),
            fields::price_or_empty(status.mark_price),
            fields::rounded_or_empty(status.drift_usd, USD_SCALE as nat),
            status.action.name(),
        ]);
    }
    out
}

/// The name of the file of a day, such as `2023-11-14_net_delta.csv`.
pub fn net_delta_file_name(date: Date) -> (r: String)
    ensures
        r@ == date.text_of() + "_net_delta.csv"@,
{
    let mut out = date.to_text();
    out.append("_net_delta.csv");
    out
}

/// A row and the day of its file.
#[derive(Clone, Debug)]
pub struct Row {
    pub date: Date,
    pub fields: Vec<String>,
    /// Whether the file of another day is open and is to be closed first.
    pub close: bool,
}

/// Which file is open, and how many rows were written.
pub struct Progress {
    pub day: Option<Date>,
    pub written: u64,
}

/// Keeps track of the file of the day and counts the rows.
pub struct NetDeltaRecorder {
    day: Option<Date>,
    rows_written: u64,
}

impl View for NetDeltaRecorder {
    type V = Progress;

    closed spec fn view(&self) -> Progress {
        Progress { day: self.day, written: self.rows_written }
    }
}

impl NetDeltaRecorder {
    /// Nothing has been written.
    pub fn new() -> (r: NetDeltaRecorder)
        ensures
            r@ == (Progress { day: None, written: 0 }),
    {
        NetDeltaRecorder { day: None, rows_written: 0 }
    }

    /// How many rows were written.
    pub fn rows_written(&self) -> (r: u64)
        ensures
            r == self@.written,
    {
        self.rows_written
    }

    /// The row of a status; `today` is the day where its own time is too far off. Every status has
    /// one.
    pub fn record(&self, status: &NetDeltaStatus, today: Date) -> (r: Row)
        ensures
            text::views(r.fields@) == row_of(*status),
            crate::dates::is_date_of(status.checked_at_wall_ms, today, r.date),
            r.close == (self@.day is Some && self@.day != Some(r.date)),
    {
        let date = wall_ms_to_date_or(status.checked_at_wall_ms, today);
        let close = match self.day {
            Some(day) => day != date,
            None => false,
        };
        Row { date, fields: status_to_row(status), close }
    }

    /// Notes that a row was written to the file of `date`.
    pub fn row_written(&mut self, date: Date)
        requires
            old(self)@.written < u64::MAX,
        ensures
            final(self)@ == (Progress {
                day: Some(date),
                written: (old(self)@.written + 1) as u64,
            }),
    {
        self.day = Some(date);
        self.rows_written += 1;
    }
}

proof fn lemma_position_lengths(positions: Map<Dex, Quantity>, n: nat)
    ensures
        position_columns(n).len() == n,
        position_fields(positions, n).len() == n,
    decreases n,
{
    if n > 0 {
        lemma_position_lengths(positions, (n - 1) as nat);
    }
}

/// A row has as many fields as there are columns.
pub proof fn law_rows_fit_the_header(status: NetDeltaStatus)
    ensures
        row_of(status).len() == header().len(),
{
    lemma_position_lengths(status.positions@, 5);
}

/// The position on a venue stands in the column of that venue.
pub proof fn law_positions_stand_in_their_columns(status: NetDeltaStatus, dex: Dex)
    ensures
        header()[2 + dex.rank()] == "pos_"@ + dex.name(),
        row_of(status)[2 + dex.rank()] == if status.positions@.contains_key(dex) {
            decimal::decimal_text(status.positions@[dex].0)
        } else {
            Seq::empty()
        },
{
    lemma_position_lengths(status.positions@, 5);
    lemma_position_at(status.positions@, dex, 5);
    assert(header()[2 + dex.rank()] == position_columns(5)[dex.rank()]);
    assert(row_of(status)[2 + dex.rank()] == position_fields(status.positions@, 5)[dex.rank()]);
}

proof fn lemma_position_at(positions: Map<Dex, Quantity>, dex: Dex, n: nat)
    requires
        dex.rank() < n <= 5,
    ensures
        position_columns(n)[dex.rank()] == "pos_"@ + dex.name(),
        position_fields(positions, n)[dex.rank()] == if positions.contains_key(dex) {
            decimal::decimal_text(positions[dex].0)
        } else {
            Seq::empty()
        },
    decreases n,
{
    lemma_position_lengths(positions, n);
    lemma_position_lengths(positions, (n - 1) as nat);
    assert(symbol::all_dexes()[dex.rank()] == dex);
    if dex.rank() < n - 1 {
        lemma_position_at(positions, dex, (n - 1) as nat);
    }
}

/// Before the positions stand the time and the instrument, behind them the sum, its value in dollars,
/// the price, the drift in dollars and the action: each under its name, dollars with four digits
/// behind the point, and what is not known left empty.
pub proof fn law_other_fields_stand_under_their_names(status: NetDeltaStatus)
    ensures
        header().len() == 12,
        header()[0] == "timestamp_ms"@ && row_of(status)[0] == text::digits(
            status.checked_at_wall_ms as nat,
        ),
        header()[1] == "symbol"@ && row_of(status)[1] == status.symbol.name(),
        header()[7] == "net_delta"@ && row_of(status)[7] == decimal::decimal_text(
            status.net_delta.0,
        ),
        header()[8] == "net_delta_usd"@ && row_of(status)[8] == fields::rounded_or_empty(
            status.net_delta_usd,
            4,
        ),
        header()[9] == "mark_price"@ && row_of(status)[9] == fields::price_or_empty(
            status.mark_price,
        ),
        header()[10] == "drift_usd"@ && row_of(status)[10] == fields::rounded_or_empty(
            status.drift_usd,
            4,
        ),
        header()[11] == "action"@ && row_of(status)[11] == status.action.name(),
{
    lemma_position_lengths(status.positions@, 5);
}

} // verus!

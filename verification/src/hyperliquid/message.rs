//! The messages of Hyperliquid.
//!
//! `l2Book` always brings the whole book, so there is nothing to rebuild and no sequence to check.
//! `activeAssetCtx` brings the funding rate of one interval, the open interest and the volume of 24
//! hours; the length of the interval is not in it.

use vstd::prelude::*;

use crate::book;
use crate::book::{BookView, Level, OrderBook, Side};
use crate::decimal::Decimal;
use crate::funding::FundingRate;
use crate::ladder;
use crate::num::{Price, Quantity};
use crate::source::MarketDataError;
use crate::symbol::{Dex, Symbol};
use crate::text;
use crate::time::{Clock, Instant};
use crate::trace::MessageTrace;

verus! {

/// A message. The text of a reply is kept for the log.
#[derive(Debug)]
pub enum HlMessage {
    L2Book { data: L2BookData },
    ActiveAssetCtx { data: ActiveAssetCtxData },
    Pong,
    SubscriptionResponse { data: String },
    Error { data: String },
    /// A channel that is of no interest.
    Other,
}

/// A book.
#[derive(Debug)]
pub struct L2BookData {
    pub coin: String,
    /// When the venue made the book (milliseconds since the epoch).
    pub time: Option<u64>,
    /// The bids, then the asks.
    pub levels: Vec<Vec<HlLevel>>,
}

/// One level of a book.
#[derive(Clone, Copy, Debug, PartialEq, Eq, Structural)]
pub struct HlLevel {
    pub px: Decimal,
    pub sz: Decimal,
    /// The count of orders at the price.
    pub n: u64,
}

/// The context of an instrument.
#[derive(Debug)]
pub struct ActiveAssetCtxData {
    pub coin: String,
    pub ctx: AssetCtx,
}

/// The figures of an instrument. A spot instrument has none of most of them.
#[derive(Clone, Copy, Debug, PartialEq, Eq, Structural)]
pub struct AssetCtx {
    /// The funding rate of one interval; positive where those who are long pay.
    pub funding: Option<Decimal>,
    pub oracle_px: Option<Decimal>,
    pub mark_px: Option<Decimal>,
    pub mid_px: Option<Decimal>,
    /// The open interest, in contracts.
    pub open_interest: Option<Decimal>,
    /// The volume of 24 hours, in US dollars.
    pub day_ntl_vlm: Option<Decimal>,
    pub premium: Option<Decimal>,
}

/// A request to subscribe.
#[derive(Clone, Copy, Debug)]
pub struct SubscribeRequest {
    pub method: &'static str,
    pub subscription: Subscription,
}

/// What a request subscribes to.
#[derive(Clone, Copy, Debug)]
pub struct Subscription {
    pub kind: &'static str,
    pub coin: &'static str,
}

/// `d` as a price.
pub open spec fn as_price(d: Option<Decimal>) -> Option<Price> {
    match d {
        Some(d) => Some(Price(d)),
        None => None,
    }
}

/// `d` as a quantity.
pub open spec fn as_quantity(d: Option<Decimal>) -> Option<Quantity> {
    match d {
        Some(d) => Some(Quantity(d)),
        None => None,
    }
}

fn to_price(d: Option<Decimal>) -> (r: Option<Price>)
    ensures
        r == as_price(d),
{
    match d {
        Some(d) => Some(Price(d)),
        None => None,
    }
}

fn to_quantity(d: Option<Decimal>) -> (r: Option<Quantity>)
    ensures
        r == as_quantity(d),
{
    match d {
        Some(d) => Some(Quantity(d)),
        None => None,
    }
}

/// The funding rate in `data`, where it is about an instrument of ours and has one.
pub open spec fn funding_in(
    data: ActiveAssetCtxData,
    interval_hours: Option<Decimal>,
    trace: MessageTrace,
) -> Option<FundingRate> {
    match (Symbol::called(Dex::Hyperliquid, data.coin@), data.ctx.funding) {
        (Some(symbol), Some(current_rate)) => Some(
            FundingRate {
                dex: Dex::Hyperliquid,
                symbol,
                current_rate,
                predicted_rate: None,
                interval_hours,
                next_funding_time_ms: None,
                index_price: as_price(data.ctx.oracle_px),
                mark_price: as_price(data.ctx.mark_px),
                open_interest: as_quantity(data.ctx.open_interest),
                volume_24h_usd: data.ctx.day_ntl_vlm,
                trace,
            },
        ),
        _ => None,
    }
}

/// The funding rate in `data`, ready at `at`; `None` where `data` is about another instrument or
/// has no rate. The venue does not state the interval, so it is the configured one, or none.
pub fn to_funding_rate_at(
    data: &ActiveAssetCtxData,
    interval_hours: Option<Decimal>,
    trace: MessageTrace,
    at: Instant,
) -> (r: Option<FundingRate>)
    ensures
        r == funding_in(
            *data,
            interval_hours,
            MessageTrace { normalized_instant: Some(at), ..trace },
        ),
{
    let symbol = match Symbol::from_dex_symbol(Dex::Hyperliquid, data.coin.as_str()) {
        Some(symbol) => symbol,
        None => return None,
    };
    let current_rate = match data.ctx.funding {
        Some(rate) => rate,
        None => return None,
    };
    let mut trace = trace;
    trace.mark_normalized_at(at);
    Some(
        FundingRate {
            dex: Dex::Hyperliquid,
            symbol,
            current_rate,
            predicted_rate: None,
            interval_hours,
            next_funding_time_ms: None,
            index_price: to_price(data.ctx.oracle_px),
            mark_price: to_price(data.ctx.mark_px),
            open_interest: to_quantity(data.ctx.open_interest),
            volume_24h_usd: data.ctx.day_ntl_vlm,
            trace,
        },
    )
}

/// The funding rate in `data`; `None` where `data` is about another instrument or has no rate.
pub fn to_funding_rate(
    data: &ActiveAssetCtxData,
    interval_hours: Option<Decimal>,
    trace: MessageTrace,
    clock: &Clock,
) -> (r: Option<FundingRate>)
    ensures
        r is Some <==> Symbol::called(Dex::Hyperliquid, data.coin@) is Some && data.ctx.funding
            is Some,
        r matches Some(rate) ==> rate.trace.normalized_instant is Some && r == funding_in(
            *data,
            interval_hours,
            MessageTrace { normalized_instant: rate.trace.normalized_instant, ..trace },
        ),
{
    to_funding_rate_at(data, interval_hours, trace, clock.now())
}

impl SubscribeRequest {
    /// The request as text.
    pub open spec fn text_of(self) -> Seq<char> {
        "{\"method\":\""@ + self.method@ + "\",\"subscription\":{\"type\":\""@
            + self.subscription.kind@ + "\",\"coin\":\""@ + self.subscription.coin@ + "\"}}"@
    }

    /// A request for the book of `symbol`.
    pub fn l2_book(symbol: Symbol) -> (r: SubscribeRequest)
        ensures
            r.method@ == "subscribe"@,
            r.subscription.kind@ == "l2Book"@,
            r.subscription.coin@ == symbol.dex_name(Dex::Hyperliquid),
    {
        SubscribeRequest {
            method: "subscribe",
            subscription: Subscription {
                kind: "l2Book",
                coin: symbol.to_dex_symbol(Dex::Hyperliquid),
            },
        }
    }

    /// A request for the context of `symbol`, on the connection of the books.
    pub fn active_asset_ctx(symbol: Symbol) -> (r: SubscribeRequest)
        ensures
            r.method@ == "subscribe"@,
            r.subscription.kind@ == "activeAssetCtx"@,
            r.subscription.coin@ == symbol.dex_name(Dex::Hyperliquid),
    {
        SubscribeRequest {
            method: "subscribe",
            subscription: Subscription {
                kind: "activeAssetCtx",
                coin: symbol.to_dex_symbol(Dex::Hyperliquid),
            },
        }
    }

    /// The request as text.
    pub fn to_text(&self) -> (r: String)
        ensures
            r@ == self.text_of(),
    {
        let mut out = "{\"method\":\"".to_owned();
        out.append(self.method);
        out.append("\",\"subscription\":{\"type\":\"");
        out.append(self.subscription.kind);
        out.append("\",\"coin\":\"");
        out.append(self.subscription.coin);
        out.append("\"}}");
        out
    }
}

/// A ping. A connection on which nothing is sent is cut in the end.
pub fn ping_message() -> (r: String)
    ensures
        r@ == "{\"method\":\"ping\"}"@,
{
    "{\"method\":\"ping\"}".to_owned()
}

/// `sorted` with `level` put behind all levels that are not worse than it.
pub open spec fn placed(side: Side, sorted: Seq<Level>, level: Level) -> Seq<Level> {
    sorted.filter(|l: Level| !ladder::better(side, level.price.0, l.price.0)).push(level)
        + sorted.filter(|l: Level| ladder::better(side, level.price.0, l.price.0))
}

/// The levels of `raw` with a positive size, the best first. Levels at the same price keep their
/// order.
pub open spec fn in_order(side: Side, raw: Seq<HlLevel>) -> Seq<Level>
    decreases raw.len(),
{
    if raw.len() == 0 {
        Seq::empty()
    } else {
        let before = in_order(side, raw.drop_last());
        if raw.last().sz.units() > 0 {
            placed(
                side,
                before,
                Level { price: Price(raw.last().px), quantity: Quantity(raw.last().sz) },
            )
        } else {
            before
        }
    }
}

/// Whether no level is better than one before it.
pub open spec fn sorted_best_first(side: Side, levels: Seq<Level>) -> bool {
    forall|i: int, j: int|
        0 <= i <= j < levels.len() ==> !ladder::better(
            side,
            (#[trigger] levels[j]).price.0,
            (#[trigger] levels[i]).price.0,
        )
}

fn convert(side: Side, raw: &Vec<HlLevel>) -> (r: Vec<Level>)
    ensures
        r@ == in_order(side, raw@),
        sorted_best_first(side, r@),
        book::all_positive(r@),
{
    let mut out: Vec<Level> = Vec::new();
    let n: usize = raw.len();
    let mut i: usize = 0;
    while i < n
        invariant
            i <= n,
            n == raw@.len(),
            out@ == in_order(side, raw@.take(i as int)),
            sorted_best_first(side, out@),
            book::all_positive(out@),
        decreases n - i,
    {
        proof {
            assert(raw@.take(i + 1).drop_last() =~= raw@.take(i as int));
            assert(raw@.take(i + 1).last() == raw@[i as int]);
        }
        let l = raw[i];
        if l.sz.is_positive() {
            place(side, &mut out, Level { price: Price(l.px), quantity: Quantity(l.sz) });
        }
        i += 1;
    }
    proof {
        assert(raw@.take(n as int) =~= raw@);
    }
    out
}

fn place(side: Side, sorted: &mut Vec<Level>, level: Level)
    requires
        sorted_best_first(side, old(sorted)@),
        book::all_positive(old(sorted)@),
        level.quantity.0.units() > 0,
    ensures
        final(sorted)@ == placed(side, old(sorted)@, level),
        sorted_best_first(side, final(sorted)@),
        book::all_positive(final(sorted)@),
{
    let n: usize = sorted.len();
    let mut at: usize = 0;
    while at < n && !is_better(side, level.price.0, sorted[at].price.0)
        invariant
            at <= n,
            n == sorted@.len(),
            sorted@ == old(sorted)@,
            forall|i: int|
                0 <= i < at ==> !ladder::better(
                    side,
                    level.price.0,
                    (#[trigger] sorted@[i]).price.0,
                ),
        ensures
            at < n ==> ladder::better(side, level.price.0, sorted@[at as int].price.0),
        decreases n - at,
    {
        at += 1;
    }
    proof {
        assert forall|i: int| at <= i < n implies ladder::better(
            side,
            level.price.0,
            (#[trigger] sorted@[i]).price.0,
        ) by {
            assert(!ladder::better(side, sorted@[i].price.0, sorted@[at as int].price.0));
        }
        ladder::lemma_filter_prefix(
            sorted@,
            |l: Level| !ladder::better(side, level.price.0, l.price.0),
            at as int,
        );
        ladder::lemma_filter_suffix(
            sorted@,
            |l: Level| ladder::better(side, level.price.0, l.price.0),
            at as int,
        );
    }
    sorted.insert(at, level);
    proof {
        assert(sorted@ =~= old(sorted)@.take(at as int).push(level) + old(sorted)@.skip(at as int));
    }
}

fn is_better(side: Side, a: Decimal, b: Decimal) -> (r: bool)
    ensures
        r == ladder::better(side, a, b),
{
    match side {
        Side::Bid => b.is_less(a),
        Side::Ask => a.is_less(b),
    }
}

/// The book in `data`, its best `depth` levels of each side, ready at `at`; nothing where `data` is
/// about another instrument or lacks a side.
pub open spec fn book_in(data: L2BookData, depth: nat, trace: MessageTrace, at: Instant) -> Option<
    BookView,
> {
    match Symbol::called(Dex::Hyperliquid, data.coin@) {
        Some(symbol) => if data.levels@.len() >= 2 {
            Some(
                BookView {
                    dex: Dex::Hyperliquid,
                    symbol,
                    bids: ladder::first_of(in_order(Side::Bid, data.levels@[0]@), depth),
                    asks: ladder::first_of(in_order(Side::Ask, data.levels@[1]@), depth),
                    trace: MessageTrace {
                        exchange_ts_ms: data.time,
                        normalized_instant: Some(at),
                        ..trace
                    },
                },
            )
        } else {
            None
        },
        None => None,
    }
}

/// Why there is no book in `data`.
pub open spec fn complaint(data: L2BookData) -> Seq<char> {
    if Symbol::called(Dex::Hyperliquid, data.coin@) is None {
        "未購読/未知の coin: "@ + data.coin@
    } else {
        "levels の要素数が不足: "@ + text::digits(data.levels@.len())
    }
}

fn book_parts(data: &L2BookData, depth: usize) -> (r: Result<
    (Symbol, Vec<Level>, Vec<Level>),
    MarketDataError,
>)
    ensures
        r is Ok <==> Symbol::called(Dex::Hyperliquid, data.coin@) is Some && data.levels@.len()
            >= 2,
        r matches Ok((symbol, bids, asks)) ==> {
            &&& Symbol::called(Dex::Hyperliquid, data.coin@) == Some(symbol)
            &&& bids@ == ladder::first_of(in_order(Side::Bid, data.levels@[0]@), depth as nat)
            &&& asks@ == ladder::first_of(in_order(Side::Ask, data.levels@[1]@), depth as nat)
            &&& book::descending(bids@) && book::all_positive(bids@)
            &&& book::ascending(asks@) && book::all_positive(asks@)
        },
        r matches Err(e) ==> e matches MarketDataError::Parse(s) && s@ == complaint(*data),
{
    let symbol = match Symbol::from_dex_symbol(Dex::Hyperliquid, data.coin.as_str()) {
        Some(symbol) => symbol,
        None => {
            let mut out = "未購読/未知の coin: ".to_owned();
            out.append(data.coin.as_str());
            return Err(MarketDataError::Parse(out));
        },
    };
    if data.levels.len() < 2 {
        let mut out = "levels の要素数が不足: ".to_owned();
        out.append(text::number_text(data.levels.len() as u64).as_str());
        return Err(MarketDataError::Parse(out));
    }
    let mut bids = convert(Side::Bid, &data.levels[0]);
    let mut asks = convert(Side::Ask, &data.levels[1]);
    let ghost all_bids = bids@;
    let ghost all_asks = asks@;
    bids.truncate(depth);
    asks.truncate(depth);
    proof {
        assert(bids@ =~= ladder::first_of(all_bids, depth as nat));
        assert(asks@ =~= ladder::first_of(all_asks, depth as nat));
    }
    Ok((symbol, bids, asks))
}

/// The book in `data`, its best `depth` levels of each side, ready at `at`. The order in which the
/// venue lists the levels is not relied on.
pub fn to_order_book_at(data: &L2BookData, depth: usize, trace: MessageTrace, at: Instant) -> (r:
    Result<OrderBook, MarketDataError>)
    ensures
        r is Ok <==> book_in(*data, depth as nat, trace, at) is Some,
        r matches Ok(book) ==> book_in(*data, depth as nat, trace, at) == Some(book@)
            && book.fault_but_crossing() is None,
        r matches Err(e) ==> e matches MarketDataError::Parse(s) && s@ == complaint(*data),
{
    let (symbol, bids, asks) = match book_parts(data, depth) {
        Ok(parts) => parts,
        Err(e) => return Err(e),
    };
    let mut trace = trace;
    trace.set_exchange_ts_ms(data.time);
    trace.mark_normalized_at(at);
    Ok(OrderBook::new(Dex::Hyperliquid, symbol, bids, asks, trace))
}

/// The book in `data`, its best `depth` levels of each side.
pub fn to_order_book(data: &L2BookData, depth: usize, trace: MessageTrace, clock: &Clock) -> (r:
    Result<OrderBook, MarketDataError>)
    ensures
        r is Ok <==> Symbol::called(Dex::Hyperliquid, data.coin@) is Some && data.levels@.len()
            >= 2,
        r matches Ok(book) ==> book.trace.normalized_instant is Some && book_in(
            *data,
            depth as nat,
            trace,
            book.trace.normalized_instant.unwrap(),
        ) == Some(book@) && book.fault_but_crossing() is None,
        r matches Err(e) ==> e matches MarketDataError::Parse(s) && s@ == complaint(*data),
{
    let (symbol, bids, asks) = match book_parts(data, depth) {
        Ok(parts) => parts,
        Err(e) => return Err(e),
    };
    let mut trace = trace;
    trace.set_exchange_ts_ms(data.time);
    trace.mark_normalized(clock);
    Ok(OrderBook::new(Dex::Hyperliquid, symbol, bids, asks, trace))
}

/// Sorting moves levels and changes none: every level with a positive size is there as often as it
/// came.
pub proof fn law_sorting_keeps_the_levels(side: Side, raw: Seq<HlLevel>)
    ensures
        in_order(side, raw).to_multiset() == kept(raw).to_multiset(),
    decreases raw.len(),
{
    broadcast use vstd::seq_lib::group_to_multiset_ensures;

    if raw.len() == 0 {
        assert(in_order(side, raw) =~= kept(raw));
    } else {
        let before = in_order(side, raw.drop_last());
        law_sorting_keeps_the_levels(side, raw.drop_last());
        if raw.last().sz.units() > 0 {
            let level = Level { price: Price(raw.last().px), quantity: Quantity(raw.last().sz) };
            let worse = |l: Level| ladder::better(side, level.price.0, l.price.0);
            let others = |l: Level| !ladder::better(side, level.price.0, l.price.0);
            lemma_filters_split(before, worse, others);
            vstd::seq_lib::lemma_multiset_commutative(
                before.filter(others).push(level),
                before.filter(worse),
            );
            vstd::seq_lib::lemma_multiset_commutative(before.filter(others), before.filter(worse));
            assert(placed(side, before, level).to_multiset() =~= before.to_multiset().insert(level));
            assert(kept(raw) == kept(raw.drop_last()).push(level));
        }
    }
}

/// The levels of `raw` with a positive size, in their order.
pub open spec fn kept(raw: Seq<HlLevel>) -> Seq<Level>
    decreases raw.len(),
{
    if raw.len() == 0 {
        Seq::empty()
    } else if raw.last().sz.units() > 0 {
        kept(raw.drop_last()).push(
            Level { price: Price(raw.last().px), quantity: Quantity(raw.last().sz) },
        )
    } else {
        kept(raw.drop_last())
    }
}

proof fn lemma_filters_split(
    levels: Seq<Level>,
    p: spec_fn(Level) -> bool,
    q: spec_fn(Level) -> bool,
)
    requires
        forall|l: Level| #[trigger] p(l) != q(l),
    ensures
        levels.filter(q).to_multiset().add(levels.filter(p).to_multiset()) == levels.to_multiset(),
    decreases levels.len(),
{
    broadcast use vstd::seq_lib::group_to_multiset_ensures;

    reveal(Seq::filter);
    if levels.len() > 0 {
        let front = levels.drop_last();
        lemma_filters_split(front, p, q);
        assert(levels =~= front.push(levels.last()));
        assert(p(levels.last()) != q(levels.last()));
        assert(levels.filter(q).to_multiset().add(levels.filter(p).to_multiset())
            =~= front.filter(q).to_multiset().add(front.filter(p).to_multiset()).insert(
            levels.last(),
        ));
    } else {
        assert(levels.filter(q) =~= levels && levels.filter(p) =~= levels);
        assert(levels.to_multiset().add(levels.to_multiset()) =~= levels.to_multiset());
    }
}

proof fn lemma_in_order_is_sorted(side: Side, raw: Seq<HlLevel>)
    ensures
        sorted_best_first(side, in_order(side, raw)),
    decreases raw.len(),
{
    if raw.len() > 0 {
        lemma_in_order_is_sorted(side, raw.drop_last());
        if raw.last().sz.units() > 0 {
            let before = in_order(side, raw.drop_last());
            let level = Level { price: Price(raw.last().px), quantity: Quantity(raw.last().sz) };
            let at = lemma_place(side, before, level);
            let others = |l: Level| !ladder::better(side, level.price.0, l.price.0);
            let worse = |l: Level| ladder::better(side, level.price.0, l.price.0);
            ladder::lemma_filter_prefix(before, others, at);
            ladder::lemma_filter_suffix(before, worse, at);
            let after = placed(side, before, level);
            assert(after =~= before.take(at).push(level) + before.skip(at));
            assert forall|i: int, j: int| 0 <= i <= j < after.len() implies !ladder::better(
                side,
                (#[trigger] after[j]).price.0,
                (#[trigger] after[i]).price.0,
            ) by {
                let k = if i < at { i } else { i - 1 };
                let m = if j < at { j } else { j - 1 };
                if i != at {
                    assert(after[i] == before[k]);
                }
                if j != at {
                    assert(after[j] == before[m]);
                }
            }
        }
    }
}

/// The place of the first level that is worse than `level`.
proof fn lemma_place(side: Side, levels: Seq<Level>, level: Level) -> (at: int)
    requires
        sorted_best_first(side, levels),
    ensures
        0 <= at <= levels.len(),
        forall|i: int|
            0 <= i < at ==> !ladder::better(side, level.price.0, (#[trigger] levels[i]).price.0),
        forall|i: int|
            at <= i < levels.len() ==> ladder::better(
                side,
                level.price.0,
                (#[trigger] levels[i]).price.0,
            ),
    decreases levels.len(),
{
    if levels.len() == 0 {
        0
    } else {
        let front = levels.drop_last();
        assert forall|i: int, j: int| 0 <= i <= j < front.len() implies !ladder::better(
            side,
            (#[trigger] front[j]).price.0,
            (#[trigger] front[i]).price.0,
        ) by {
            assert(front[i] == levels[i] && front[j] == levels[j]);
        }
        let at = lemma_place(side, front, level);
        assert forall|i: int| 0 <= i < front.len() implies front[i] == #[trigger] levels[i] by {}
        if ladder::better(side, level.price.0, levels.last().price.0) {
            at
        } else {
            if at < front.len() {
                assert(!ladder::better(side, levels.last().price.0, levels[at].price.0));
                assert(ladder::better(side, level.price.0, front[at].price.0));
            }
            levels.len() as int
        }
    }
}

/// Whether `top` is the best of what `raw` offers: of all its levels with a positive size, the best
/// first, as many as `depth`.
pub open spec fn is_best_of(side: Side, raw: Seq<HlLevel>, depth: nat, top: Seq<Level>) -> bool {
    exists|all: Seq<Level>|
        {
            &&& #[trigger] sorted_best_first(side, all)
            &&& all.to_multiset() == kept(raw).to_multiset()
            &&& ladder::is_top(all, depth, top)
        }
}

/// The book of a message shows the best of its first list as bids and the best of its second list as
/// asks, whatever the order in which they are listed, with the time that the venue gives.
pub proof fn law_book_shows_the_best_of_each_list(
    data: L2BookData,
    depth: nat,
    trace: MessageTrace,
    at: Instant,
)
    ensures
        book_in(data, depth, trace, at) is Some <==> Symbol::called(Dex::Hyperliquid, data.coin@)
            is Some && data.levels@.len() >= 2,
        book_in(data, depth, trace, at) matches Some(book) ==> {
            &&& book.dex == Dex::Hyperliquid
            &&& Symbol::called(Dex::Hyperliquid, data.coin@) == Some(book.symbol)
            &&& is_best_of(Side::Bid, data.levels@[0]@, depth, book.bids)
            &&& is_best_of(Side::Ask, data.levels@[1]@, depth, book.asks)
            &&& book.trace.exchange_ts_ms == data.time
            &&& book.trace.normalized_instant == Some(at)
            &&& book.trace.received_instant == trace.received_instant
            &&& book.trace.received_wall_ms == trace.received_wall_ms
            &&& book.trace.evaluated_instant == trace.evaluated_instant
        },
{
    if let Some(book) = book_in(data, depth, trace, at) {
        let (bids, asks) = (data.levels@[0]@, data.levels@[1]@);
        lemma_in_order_is_sorted(Side::Bid, bids);
        lemma_in_order_is_sorted(Side::Ask, asks);
        law_sorting_keeps_the_levels(Side::Bid, bids);
        law_sorting_keeps_the_levels(Side::Ask, asks);
        assert(ladder::is_top(in_order(Side::Bid, bids), depth, book.bids));
        assert(ladder::is_top(in_order(Side::Ask, asks), depth, book.asks));
        assert(sorted_best_first(Side::Bid, in_order(Side::Bid, bids)));
        assert(sorted_best_first(Side::Ask, in_order(Side::Ask, asks)));
    }
}

/// A funding rate is read wherever the message is about an instrument of ours and has one. The oracle
/// price is the index price; there is no forecast and no time of the next exchange; the interval is
/// the configured one.
pub proof fn law_rates_keep_their_meaning(
    data: ActiveAssetCtxData,
    interval_hours: Option<Decimal>,
    trace: MessageTrace,
)
    ensures
        funding_in(data, interval_hours, trace) is Some <==> Symbol::called(
            Dex::Hyperliquid,
            data.coin@,
        ) is Some && data.ctx.funding is Some,
        funding_in(data, interval_hours, trace) matches Some(rate) ==> {
            &&& rate.dex == Dex::Hyperliquid
            &&& Symbol::called(Dex::Hyperliquid, data.coin@) == Some(rate.symbol)
            &&& data.ctx.funding == Some(rate.current_rate)
            &&& rate.predicted_rate is None && rate.next_funding_time_ms is None
            &&& rate.interval_hours == interval_hours
            &&& rate.index_price is Some <==> data.ctx.oracle_px is Some
            &&& rate.index_price matches Some(p) ==> data.ctx.oracle_px == Some(p.0)
            &&& rate.mark_price is Some <==> data.ctx.mark_px is Some
            &&& rate.mark_price matches Some(p) ==> data.ctx.mark_px == Some(p.0)
            &&& rate.open_interest is Some <==> data.ctx.open_interest is Some
            &&& rate.open_interest matches Some(q) ==> data.ctx.open_interest == Some(q.0)
            &&& rate.volume_24h_usd == data.ctx.day_ntl_vlm
            &&& rate.trace == trace
        },
{
}

/// The text of a request has the method, the type and the instrument each behind its own name.
pub proof fn law_request_says_what_is_asked_for(request: SubscribeRequest)
    ensures
        ({
            let t = request.text_of();
            let m = request.method@.len() as int;
            let k = request.subscription.kind@.len() as int;
            let method = "\"method\":\""@ + request.method@ + "\""@;
            let kind = "\"type\":\""@ + request.subscription.kind@ + "\""@;
            let coin = "\"coin\":\""@ + request.subscription.coin@ + "\""@;
            &&& text::stands_in(t, method, 1)
            &&& text::stands_in(t, kind, m + 29)
            &&& text::stands_in(t, coin, m + k + 39)
        }),
{
    reveal_strlit("{\"method\":\"");
    reveal_strlit("\",\"subscription\":{\"type\":\"");
    reveal_strlit("\",\"coin\":\"");
    reveal_strlit("\"}}");
    reveal_strlit("\"method\":\"");
    reveal_strlit("\"type\":\"");
    reveal_strlit("\"coin\":\"");
    reveal_strlit("\"");
    let t = request.text_of();
    let m = request.method@.len() as int;
    let k = request.subscription.kind@.len() as int;
    let method = "\"method\":\""@ + request.method@ + "\""@;
    let kind = "\"type\":\""@ + request.subscription.kind@ + "\""@;
    let coin = "\"coin\":\""@ + request.subscription.coin@ + "\""@;
    assert(t.subrange(1, 1 + method.len() as int) =~= method);
    assert(t.subrange(m + 29, m + 29 + kind.len() as int) =~= kind);
    assert(t.subrange(m + k + 39, m + k + 39 + coin.len() as int) =~= coin);
}

} // verus!

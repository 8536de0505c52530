//! The messages of Lighter.
//!
//! A subscription to `order_book:<market index>` brings the whole book first and changes after it.
//! Changes are put in order by `begin_nonce` and `nonce`. `offset` belongs to the server that
//! answers and may jump when another one takes over: it says nothing about the order.
//!
//! The market index of an instrument comes from `market_stats:all`, together with its funding rate
//! and its volume.

use vstd::prelude::*;

use crate::decimal;
use crate::decimal::{Decimal, Overflow};
use crate::json::Json;
use crate::text;
use crate::wire;

pub use crate::wire::{Num, PriceSize};

verus! {

/// The levels of a message.
#[derive(Debug)]
pub struct OrderBookPayload {
    pub code: Option<i64>,
    pub asks: Vec<PriceSize>,
    pub bids: Vec<PriceSize>,
    /// The version after the message.
    pub nonce: Option<Num>,
    /// The version that the message builds on.
    pub begin_nonce: Option<Num>,
    /// A count of the server's own, of no use for the order.
    pub offset: Option<Num>,
}

/// The frame of a message.
#[derive(Debug)]
pub struct LighterEnvelope {
    pub kind: String,
    pub channel: Option<String>,
    pub order_book: Option<OrderBookPayload>,
    pub market_stats: Option<Json>,
    pub last_updated_at: Option<Num>,
    pub nonce: Option<Num>,
    pub begin_nonce: Option<Num>,
    pub offset: Option<Num>,
}

/// What a message is for.
#[derive(Clone, Copy, Debug, PartialEq, Eq, Structural)]
pub enum LighterMessageKind {
    OrderBook,
    MarketStats,
    Ping,
    Pong,
    Error,
    Control,
    Unknown,
}

/// Whether levels are the whole book or a change of it.
#[derive(Clone, Copy, Debug, PartialEq, Eq, Structural)]
pub enum UpdateKind {
    Snapshot,
    Update,
}

impl LighterEnvelope {
    /// What the message is for.
    pub open spec fn purpose(self) -> LighterMessageKind {
        let kind = self.kind@;
        if text::contains_letters(kind, "ping"@) {
            LighterMessageKind::Ping
        } else if text::contains_letters(kind, "pong"@) {
            LighterMessageKind::Pong
        } else if text::contains_letters(kind, "error"@) {
            LighterMessageKind::Error
        } else if self.order_book is Some {
            LighterMessageKind::OrderBook
        } else if self.market_stats is Some {
            LighterMessageKind::MarketStats
        } else if text::contains_letters(kind, "connected"@) || text::contains_letters(
            kind,
            "subscribed"@,
        ) {
            LighterMessageKind::Control
        } else {
            LighterMessageKind::Unknown
        }
    }

    /// Whether the levels are the whole book or a change of it, where the message says so.
    pub open spec fn stated_update(self) -> Option<UpdateKind> {
        let kind = self.kind@;
        if text::contains_letters(kind, "subscribed"@) || text::contains_letters(
            kind,
            "snapshot"@,
        ) {
            Some(UpdateKind::Snapshot)
        } else if text::contains_letters(kind, "update"@) {
            Some(UpdateKind::Update)
        } else {
            None
        }
    }

    /// The version after the message: that of the frame, or else that of the levels.
    pub open spec fn nonce_value(self) -> Option<u64> {
        match wire::value_of(self.nonce) {
            Some(n) => Some(n),
            None => match self.order_book {
                Some(levels) => wire::value_of(levels.nonce),
                None => None,
            },
        }
    }

    /// The version that the message builds on: that of the frame, or else that of the levels.
    pub open spec fn begin_nonce_value(self) -> Option<u64> {
        match wire::value_of(self.begin_nonce) {
            Some(n) => Some(n),
            None => match self.order_book {
                Some(levels) => wire::value_of(levels.begin_nonce),
                None => None,
            },
        }
    }

    /// What the message is for.
    pub fn message_kind(&self) -> (r: LighterMessageKind)
        ensures
            r == self.purpose(),
    {
        let kind = self.kind.as_str();
        if text::contains_ignore_case(kind, "ping") {
            LighterMessageKind::Ping
        } else if text::contains_ignore_case(kind, "pong") {
            LighterMessageKind::Pong
        } else if text::contains_ignore_case(kind, "error") {
            LighterMessageKind::Error
        } else if self.order_book.is_some() {
            LighterMessageKind::OrderBook
        } else if self.market_stats.is_some() {
            LighterMessageKind::MarketStats
        } else if text::contains_ignore_case(kind, "connected") || text::contains_ignore_case(
            kind,
            "subscribed",
        ) {
            LighterMessageKind::Control
        } else {
            LighterMessageKind::Unknown
        }
    }

    /// Whether the levels are the whole book or a change of it; `None` where the message does not
    /// say.
    pub fn update_kind(&self) -> (r: Option<UpdateKind>)
        ensures
            r == self.stated_update(),
    {
        let kind = self.kind.as_str();
        if text::contains_ignore_case(kind, "subscribed") || text::contains_ignore_case(
            kind,
            "snapshot",
        ) {
            Some(UpdateKind::Snapshot)
        } else if text::contains_ignore_case(kind, "update") {
            Some(UpdateKind::Update)
        } else {
            None
        }
    }

    /// When the venue made the message (milliseconds since the epoch).
    pub fn exchange_ts_ms(&self) -> (r: Option<u64>)
        ensures
            r == wire::value_of(self.last_updated_at),
    {
        wire::number_of(&self.last_updated_at)
    }

    /// The version after the message: that of the frame, or else that of the levels.
    pub fn nonce(&self) -> (r: Option<u64>)
        ensures
            r == self.nonce_value(),
    {
        match wire::number_of(&self.nonce) {
            Some(n) => Some(n),
            None => match &self.order_book {
                Some(levels) => wire::number_of(&levels.nonce),
                None => None,
            },
        }
    }

    /// The version that the message builds on: that of the frame, or else that of the levels.
    pub fn begin_nonce(&self) -> (r: Option<u64>)
        ensures
            r == self.begin_nonce_value(),
    {
        match wire::number_of(&self.begin_nonce) {
            Some(n) => Some(n),
            None => match &self.order_book {
                Some(levels) => wire::number_of(&levels.begin_nonce),
                None => None,
            },
        }
    }

    /// The index of the market that the message is about.
    pub fn market_index(&self) -> (r: Option<u32>)
        ensures
            r == match self.channel {
                Some(channel) => index_in(channel@),
                None => None,
            },
    {
        match &self.channel {
            Some(channel) => channel_index(channel.as_str()),
            None => None,
        }
    }
}

/// `n`, where a `u32` can hold it.
pub open spec fn small(n: Option<u64>) -> Option<u32> {
    match n {
        Some(n) => if n <= u32::MAX {
            Some(n as u32)
        } else {
            None
        },
        None => None,
    }
}

fn to_small(n: Option<u64>) -> (r: Option<u32>)
    ensures
        r == small(n),
{
    match n {
        Some(n) => if n <= u32::MAX as u64 {
            Some(n as u32)
        } else {
            None
        },
        None => None,
    }
}

/// The index of the market that `channel` names: the number behind the last colon or slash.
pub open spec fn index_in(channel: Seq<char>) -> Option<u32> {
    small(text::number_in(text::last_segment(channel)))
}

/// The index of the market that `channel` names: 5 for `order_book:5` and for `order_book/5`.
pub fn channel_index(channel: &str) -> (r: Option<u32>)
    ensures
        r == index_in(channel@),
{
    to_small(text::parse_number(text::behind_last_mark(channel)))
}

/// The name of the channel of a market's book gives the index of the market back, in either spelling.
/// The channel of the statistics of all markets names none.
pub proof fn law_channel_names_its_market(index: u32)
    ensures
        index_in("order_book:"@ + text::digits(index as nat)) == Some(index),
        index_in("order_book/"@ + text::digits(index as nat)) == Some(index),
        index_in("market_stats:all"@) is None,
{
    reveal_strlit("order_book:");
    reveal_strlit("order_book/");
    reveal_strlit("market_stats:all");
    reveal_strlit("market_stats:");
    reveal_strlit("all");
    let s = text::digits(index as nat);
    let none = Seq::<char>::empty();
    text::lemma_digits(index as nat);
    assert forall|i: int| 0 <= i < s.len() implies #[trigger] s[i] != ':' && s[i] != '/' by {
        assert(text::is_digit(s[i]));
    }
    text::lemma_segment_behind_mark("order_book:"@, s);
    text::lemma_segment_behind_mark("order_book/"@, s);
    text::law_number_is_read_back(index as u64, none, none);
    assert(none + s + none =~= s);
    assert("market_stats:all"@ =~= "market_stats:"@ + "all"@);
    text::lemma_segment_behind_mark("market_stats:"@, "all"@);
    text::law_only_white_space_is_trimmed(none, "all"@, none);
    assert(none + "all"@ + none =~= "all"@);
    assert(!text::is_digit("all"@[0]));
}

/// The statistics of one market.
#[derive(Debug, PartialEq)]
pub struct MarketStatsEntry {
    pub symbol: String,
    pub market_id: u32,
    pub index_price: Option<Decimal>,
    pub mark_price: Option<Decimal>,
    /// The current funding rate.
    pub current_funding_rate: Option<Decimal>,
    /// The other rate that the venue gives, taken for its forecast.
    pub funding_rate: Option<Decimal>,
    /// When funding is next exchanged (milliseconds since the epoch).
    pub next_funding_time_ms: Option<u64>,
    /// The open interest, in contracts.
    pub open_interest: Option<Decimal>,
    /// The volume of 24 hours in the quote currency, US dollars.
    pub daily_quote_volume: Option<Decimal>,
    /// The volume of 24 hours in contracts.
    pub daily_base_volume: Option<Decimal>,
}

/// What an entry says.
pub struct Stats {
    pub symbol: Seq<char>,
    pub market_id: u32,
    pub index_price: Option<Decimal>,
    pub mark_price: Option<Decimal>,
    pub current_funding_rate: Option<Decimal>,
    pub funding_rate: Option<Decimal>,
    pub next_funding_time_ms: Option<u64>,
    pub open_interest: Option<Decimal>,
    pub daily_quote_volume: Option<Decimal>,
    pub daily_base_volume: Option<Decimal>,
}

impl Stats {
    /// The volume of 24 hours in US dollars: the one in the quote currency, or else the one in
    /// contracts times a positive price.
    pub open spec fn volume_outcome(self) -> Result<Option<Decimal>, Overflow> {
        match (self.daily_quote_volume, self.daily_base_volume, self.known_price()) {
            (Some(quote), _, _) => Ok(Some(quote)),
            (None, Some(base), Some(price)) => if price.units() > 0 {
                match decimal::product_of(base, price) {
                    Ok(volume) => Ok(Some(volume)),
                    Err(e) => Err(e),
                }
            } else {
                Ok(None)
            },
            _ => Ok(None),
        }
    }

    /// The mark price, or else the index price.
    pub open spec fn known_price(self) -> Option<Decimal> {
        if self.mark_price is Some {
            self.mark_price
        } else {
            self.index_price
        }
    }
}

impl View for MarketStatsEntry {
    type V = Stats;

    open spec fn view(&self) -> Stats {
        Stats {
            symbol: self.symbol@,
            market_id: self.market_id,
            index_price: self.index_price,
            mark_price: self.mark_price,
            current_funding_rate: self.current_funding_rate,
            funding_rate: self.funding_rate,
            next_funding_time_ms: self.next_funding_time_ms,
            open_interest: self.open_interest,
            daily_quote_volume: self.daily_quote_volume,
            daily_base_volume: self.daily_base_volume,
        }
    }
}

impl MarketStatsEntry {
    /// The volume of 24 hours in US dollars.
    pub open spec fn volume_outcome(self) -> Result<Option<Decimal>, Overflow> {
        self@.volume_outcome()
    }

    /// Whether there is a funding rate.
    pub fn has_funding(&self) -> (r: bool)
        ensures
            r == (self.current_funding_rate is Some || self.funding_rate is Some),
    {
        self.current_funding_rate.is_some() || self.funding_rate.is_some()
    }

    /// The volume of 24 hours in US dollars. Without a price nothing is made up.
    pub fn checked_volume_24h_usd(&self) -> (r: Result<Option<Decimal>, Overflow>)
        ensures
            r == self.volume_outcome(),
    {
        if self.daily_quote_volume.is_some() {
            return Ok(self.daily_quote_volume);
        }
        let price = if self.mark_price.is_some() {
            self.mark_price
        } else {
            self.index_price
        };
        match (self.daily_base_volume, price) {
            (Some(base), Some(price)) => {
                if price.is_positive() {
                    let volume = base.checked_mul(price)?;
                    Ok(Some(volume))
                } else {
                    Ok(None)
                }
            },
            _ => Ok(None),
        }
    }

    /// The volume of 24 hours in US dollars. Without a price nothing is made up.
    pub fn volume_24h_usd(&self) -> (r: Option<Decimal>)
        requires
            self.volume_outcome() is Ok,
        ensures
            self.volume_outcome() == Ok::<Option<Decimal>, Overflow>(r),
    {
        match self.checked_volume_24h_usd() {
            Ok(volume) => volume,
            Err(_) => None,
        }
    }
}

/// How many levels of nesting are searched.
pub const MAX_NESTING: usize = 9;

/// The decimal of the member `key`, or, where there is no such member, of the member `other`.
pub open spec fn decimal_member(value: Json, key: Seq<char>, other: Seq<char>) -> Option<Decimal> {
    match first_member(value, key, other) {
        Some(v) => v.decimal_of(),
        None => None,
    }
}

/// The member `key`, or, where there is none, the member `other`.
pub open spec fn first_member(value: Json, key: Seq<char>, other: Seq<char>) -> Option<Json> {
    match value.member(key) {
        Some(v) => Some(v),
        None => value.member(other),
    }
}

/// The statistics that the object `value` itself gives: it must name a market and its index.
pub open spec fn stats_here(value: Json) -> Seq<Stats> {
    match (value.member("symbol"@), value.member("market_id"@)) {
        (Some(symbol), Some(id)) => match (symbol.text_of(), small(id.number())) {
            (Some(symbol), Some(market_id)) => seq![
                Stats {
                    symbol,
                    market_id,
                    index_price: decimal_member(value, "index_price"@, "index_price"@),
                    mark_price: decimal_member(value, "mark_price"@, "mark_price"@),
                    current_funding_rate: decimal_member(
                        value,
                        "current_funding_rate"@,
                        "current_funding_rate"@,
                    ),
                    funding_rate: decimal_member(value, "funding_rate"@, "funding_rate"@),
                    next_funding_time_ms: match first_member(
                        value,
                        "next_funding_time"@,
                        "next_funding_timestamp"@,
                    ) {
                        Some(v) => v.number(),
                        None => None,
                    },
                    open_interest: decimal_member(
                        value,
                        "open_interest"@,
                        "open_interest_base"@,
                    ),
                    daily_quote_volume: decimal_member(
                        value,
                        "daily_quote_token_volume"@,
                        "daily_quote_volume"@,
                    ),
                    daily_base_volume: decimal_member(
                        value,
                        "daily_base_token_volume"@,
                        "daily_base_volume"@,
                    ),
                },
            ],
            _ => Seq::empty(),
        },
        _ => Seq::empty(),
    }
}

/// The statistics that `value` and, up to `nesting` levels down, the values in it give, in the
/// order in which they stand.
pub open spec fn stats_in(value: Json, nesting: nat) -> Seq<Stats>
    decreases 2 * nesting, 0nat,
{
    if nesting == 0 {
        Seq::empty()
    } else {
        match value {
            Json::Object(members) => stats_here(value) + stats_in_members(
                members@,
                members@.len(),
                (nesting - 1) as nat,
            ),
            Json::Array(items) => stats_in_items(items@, items@.len(), (nesting - 1) as nat),
            _ => Seq::empty(),
        }
    }
}

/// The statistics in the first `n` of `members`.
pub open spec fn stats_in_members(members: Seq<(String, Json)>, n: nat, nesting: nat) -> Seq<Stats>
    decreases 2 * nesting + 1, n,
{
    if n == 0 {
        Seq::empty()
    } else {
        stats_in_members(members, (n - 1) as nat, nesting) + stats_in(members[n - 1].1, nesting)
    }
}

/// The statistics in the first `n` of `items`.
pub open spec fn stats_in_items(items: Seq<Json>, n: nat, nesting: nat) -> Seq<Stats>
    decreases 2 * nesting + 1, n,
{
    if n == 0 {
        Seq::empty()
    } else {
        stats_in_items(items, (n - 1) as nat, nesting) + stats_in(items[n - 1], nesting)
    }
}

/// What `entries` say.
pub open spec fn all_stats(entries: Seq<MarketStatsEntry>) -> Seq<Stats> {
    entries.map_values(|e: MarketStatsEntry| e@)
}

fn get_first<'a>(value: &'a Json, key: &str, other: &str) -> (r: Option<&'a Json>)
    ensures
        r matches Some(v) ==> first_member(*value, key@, other@) == Some(*v),
        r is None ==> first_member(*value, key@, other@) is None,
{
    match value.get(key) {
        Some(v) => Some(v),
        None => value.get(other),
    }
}

fn get_decimal(value: &Json, key: &str, other: &str) -> (r: Option<Decimal>)
    ensures
        r == decimal_member(*value, key@, other@),
{
    match get_first(value, key, other) {
        Some(v) => v.as_decimal(),
        None => None,
    }
}

fn entry_here(value: &Json) -> (r: Option<MarketStatsEntry>)
    ensures
        r matches Some(e) ==> stats_here(*value) == seq![e@],
        r is None ==> stats_here(*value) == Seq::<Stats>::empty(),
{
    let symbol = match value.get("symbol") {
        Some(v) => v.as_text(),
        None => None,
    };
    let market_id = match value.get("market_id") {
        Some(v) => to_small(v.as_u64()),
        None => None,
    };
    let next_funding_time_ms = match get_first(
        value,
        "next_funding_time",
        "next_funding_timestamp",
    ) {
        Some(v) => v.as_u64(),
        None => None,
    };
    match (symbol, market_id) {
        (Some(symbol), Some(market_id)) => Some(
            MarketStatsEntry {
                symbol: symbol.clone(),
                market_id,
                index_price: get_decimal(value, "index_price", "index_price"),
                mark_price: get_decimal(value, "mark_price", "mark_price"),
                current_funding_rate: get_decimal(
                    value,
                    "current_funding_rate",
                    "current_funding_rate",
                ),
                funding_rate: get_decimal(value, "funding_rate", "funding_rate"),
                next_funding_time_ms,
                open_interest: get_decimal(value, "open_interest", "open_interest_base"),
                daily_quote_volume: get_decimal(
                    value,
                    "daily_quote_token_volume",
                    "daily_quote_volume",
                ),
                daily_base_volume: get_decimal(
                    value,
                    "daily_base_token_volume",
                    "daily_base_volume",
                ),
            },
        ),
        _ => None,
    }
}

fn walk_market_stats(value: &Json, nesting: usize, out: &mut Vec<MarketStatsEntry>)
    ensures
        all_stats(final(out)@) == all_stats(old(out)@) + stats_in(*value, nesting as nat),
    decreases nesting,
{
    if nesting == 0 {
        proof {
            assert(all_stats(out@) + stats_in(*value, 0) =~= all_stats(out@));
        }
        return;
    }
    match value {
        Json::Object(members) => {
            if let Some(entry) = entry_here(value) {
                out.push(entry);
            }
            let ghost start = all_stats(old(out)@) + stats_here(*value);
            proof {
                assert(all_stats(out@) =~= start);
            }
            let n: usize = members.len();
            let mut i: usize = 0;
            proof {
                assert(start + stats_in_members(members@, 0, (nesting - 1) as nat) =~= start);
            }
            while i < n
                invariant
                    i <= n,
                    n == members@.len(),
                    nesting > 0,
                    all_stats(out@) == start + stats_in_members(
                        members@,
                        i as nat,
                        (nesting - 1) as nat,
                    ),
                decreases n - i,
            {
                let ghost before = stats_in_members(members@, i as nat, (nesting - 1) as nat);
                walk_market_stats(&members[i].1, nesting - 1, out);
                proof {
                    let more = stats_in(members@[i as int].1, (nesting - 1) as nat);
                    assert((start + before) + more =~= start + (before + more));
                }
                i += 1;
            }
            proof {
                let rest = stats_in_members(members@, n as nat, (nesting - 1) as nat);
                assert((all_stats(old(out)@) + stats_here(*value)) + rest =~= all_stats(old(out)@)
                    + (stats_here(*value) + rest));
            }
        },
        Json::Array(items) => {
            let ghost start = all_stats(old(out)@);
            let n: usize = items.len();
            let mut i: usize = 0;
            proof {
                assert(start + stats_in_items(items@, 0, (nesting - 1) as nat) =~= start);
            }
            while i < n
                invariant
                    i <= n,
                    n == items@.len(),
                    nesting > 0,
                    all_stats(out@) == start + stats_in_items(
                        items@,
                        i as nat,
                        (nesting - 1) as nat,
                    ),
                decreases n - i,
            {
                let ghost before = stats_in_items(items@, i as nat, (nesting - 1) as nat);
                walk_market_stats(&items[i], nesting - 1, out);
                proof {
                    let more = stats_in(items@[i as int], (nesting - 1) as nat);
                    assert((start + before) + more =~= start + (before + more));
                }
                i += 1;
            }
        },
        _ => {
            proof {
                assert(all_stats(out@) + stats_in(*value, nesting as nat) =~= all_stats(out@));
            }
        },
    }
}

/// The statistics in `value`, whether it is one object, a list or a table of them.
pub fn collect_market_stats(value: &Json) -> (r: Vec<MarketStatsEntry>)
    ensures
        all_stats(r@) == stats_in(*value, MAX_NESTING as nat),
{
    let mut out: Vec<MarketStatsEntry> = Vec::new();
    walk_market_stats(value, MAX_NESTING, &mut out);
    proof {
        let all = stats_in(*value, MAX_NESTING as nat);
        assert(all_stats(Seq::<MarketStatsEntry>::empty()) + all =~= all);
    }
    out
}

/// The channel of the statistics of all markets.
pub fn market_stats_channel() -> (r: &'static str)
    ensures
        r@ == "market_stats:all"@,
{
    "market_stats:all"
}

/// The channel of the book of a market.
pub fn order_book_channel(market_index: u32) -> (r: String)
    ensures
        r@ == "order_book:"@ + text::digits(market_index as nat),
{
    let mut out = "order_book:".to_owned();
    out.append(text::number_text(market_index as u64).as_str());
    out
}

/// The message that subscribes to `channel`.
pub fn subscribe_message(channel: &str) -> (r: String)
    ensures
        r@ == "{\"type\":\"subscribe\",\"channel\":\""@ + channel@ + "\"}"@,
{
    let mut out = "{\"type\":\"subscribe\",\"channel\":\"".to_owned();
    out.append(channel);
    out.append("\"}");
    out
}

/// The message that ends the subscription to `channel`.
pub fn unsubscribe_message(channel: &str) -> (r: String)
    ensures
        r@ == "{\"type\":\"unsubscribe\",\"channel\":\""@ + channel@ + "\"}"@,
{
    let mut out = "{\"type\":\"unsubscribe\",\"channel\":\"".to_owned();
    out.append(channel);
    out.append("\"}");
    out
}

/// A ping. A connection on which nothing is sent for two minutes is cut.
pub fn ping_message() -> (r: String)
    ensures
        r@ == "{\"type\":\"ping\"}"@,
{
    "{\"type\":\"ping\"}".to_owned()
}

/// The answer to a ping.
pub fn pong_message() -> (r: String)
    ensures
        r@ == "{\"type\":\"pong\"}"@,
{
    "{\"type\":\"pong\"}".to_owned()
}

/// The volume of 24 hours is the one that the venue gives in dollars; or else the count of contracts
/// times the mark price, or the index price where there is no mark price, exactly where a decimal can
/// hold it. Without a positive price none is made up.
pub proof fn law_volume_is_in_dollars(stats: Stats, usd: Decimal)
    ensures
        stats.daily_quote_volume is Some ==> stats.volume_outcome() == Ok::<
            Option<Decimal>,
            Overflow,
        >(stats.daily_quote_volume),
        stats.daily_quote_volume is None ==> {
            let price = if stats.mark_price is Some {
                stats.mark_price
            } else {
                stats.index_price
            };
            match (stats.daily_base_volume, price) {
                (Some(base), Some(p)) => {
                    &&& p.units() <= 0 ==> stats.volume_outcome() == Ok::<Option<Decimal>, Overflow>(
                        None,
                    )
                    &&& p.units() > 0 ==> !(stats.volume_outcome() matches Ok(None))
                    &&& p.units() > 0 && usd.valid() && usd.units() * decimal::pow10(28)
                        == base.units() * p.units() ==> stats.volume_outcome() == Ok::<
                        Option<Decimal>,
                        Overflow,
                    >(Some(usd))
                },
                _ => stats.volume_outcome() == Ok::<Option<Decimal>, Overflow>(None),
            }
        },
{
    if let (Some(base), Some(p)) = (
        stats.daily_base_volume,
        if stats.mark_price is Some {
            stats.mark_price
        } else {
            stats.index_price
        },
    ) {
        if usd.valid() && usd.units() * decimal::pow10(28) == base.units() * p.units() {
            decimal::law_product_is_exact(base, p, usd);
        }
    }
}

/// The decimal that a value holds, where there is a value.
pub open spec fn decimal_in(value: Option<Json>) -> Option<Decimal> {
    match value {
        Some(v) => v.decimal_of(),
        None => None,
    }
}

/// Every figure of a market comes from the member of its own name, or from the member of its other
/// name where it has one and the first is not there.
pub proof fn law_figures_come_from_their_members(value: Json)
    ensures
        stats_here(value).len() <= 1,
        stats_here(value).len() == 1 ==> {
            let s = stats_here(value)[0];
            let id = value.member("market_id"@);
            &&& value.member("symbol"@) matches Some(v) && v.text_of() == Some(s.symbol)
            &&& id matches Some(v) && v.number() == Some(s.market_id as u64)
            &&& s.index_price == decimal_in(value.member("index_price"@))
            &&& s.mark_price == decimal_in(value.member("mark_price"@))
            &&& s.current_funding_rate == decimal_in(value.member("current_funding_rate"@))
            &&& s.funding_rate == decimal_in(value.member("funding_rate"@))
            &&& value.member("next_funding_time"@) matches Some(v) ==> s.next_funding_time_ms
                == v.number()
            &&& value.member("next_funding_time"@) is None ==> s.next_funding_time_ms == (match
                value.member("next_funding_timestamp"@) {
                Some(v) => v.number(),
                None => None,
            })
            &&& value.member("open_interest"@) is Some ==> s.open_interest == decimal_in(
                value.member("open_interest"@),
            )
            &&& value.member("open_interest"@) is None ==> s.open_interest == decimal_in(
                value.member("open_interest_base"@),
            )
            &&& value.member("daily_quote_token_volume"@) is Some ==> s.daily_quote_volume
                == decimal_in(value.member("daily_quote_token_volume"@))
            &&& value.member("daily_quote_token_volume"@) is None ==> s.daily_quote_volume
                == decimal_in(value.member("daily_quote_volume"@))
            &&& value.member("daily_base_token_volume"@) is Some ==> s.daily_base_volume
                == decimal_in(value.member("daily_base_token_volume"@))
            &&& value.member("daily_base_token_volume"@) is None ==> s.daily_base_volume
                == decimal_in(value.member("daily_base_volume"@))
        },
        (value.member("symbol"@) matches Some(v) && v.text_of() is Some) && (value.member(
            "market_id"@,
        ) matches Some(v) && (v.number() matches Some(n) && n <= u32::MAX)) <==> stats_here(
            value,
        ).len() == 1,
{
}

/// The statistics in a list are those in its parts, one behind the other: none is left out, however
/// long the list is.
pub proof fn law_statistics_of_items_stand_one_behind_the_other(
    first: Seq<Json>,
    second: Seq<Json>,
    nesting: nat,
)
    ensures
        stats_in_items(first + second, (first + second).len(), nesting) == stats_in_items(
            first,
            first.len(),
            nesting,
        ) + stats_in_items(second, second.len(), nesting),
{
    lemma_items(first, second, second.len(), nesting);
}

proof fn lemma_items_of_prefix(first: Seq<Json>, second: Seq<Json>, n: nat, nesting: nat)
    requires
        n <= first.len(),
    ensures
        stats_in_items(first + second, n, nesting) == stats_in_items(first, n, nesting),
    decreases n,
{
    if n > 0 {
        lemma_items_of_prefix(first, second, (n - 1) as nat, nesting);
        assert((first + second)[n - 1] == first[n - 1]);
    }
}

proof fn lemma_items(first: Seq<Json>, second: Seq<Json>, n: nat, nesting: nat)
    requires
        n <= second.len(),
    ensures
        stats_in_items(first + second, first.len() + n, nesting) == stats_in_items(
            first,
            first.len(),
            nesting,
        ) + stats_in_items(second, n, nesting),
    decreases n,
{
    let a = stats_in_items(first, first.len(), nesting);
    if n == 0 {
        lemma_items_of_prefix(first, second, first.len(), nesting);
        assert(a + Seq::<Stats>::empty() =~= a);
    } else {
        lemma_items(first, second, (n - 1) as nat, nesting);
        let b = stats_in_items(second, (n - 1) as nat, nesting);
        let c = stats_in(second[n - 1], nesting);
        assert((first + second)[first.len() + n - 1] == second[n - 1]);
        assert((a + b) + c =~= a + (b + c));
    }
}

/// A list of one value gives what the value gives; a list gives what its items give; a table gives
/// what it says itself and then what its members give, each member's value after the one before.
pub proof fn law_statistics_are_searched_inside(
    value: Json,
    items: Vec<Json>,
    members: Vec<(String, Json)>,
    nesting: nat,
)
    ensures
        stats_in_items(seq![value], 1, nesting) == stats_in(value, nesting),
        stats_in(Json::Array(items), nesting + 1) == stats_in_items(
            items@,
            items@.len(),
            nesting,
        ),
        stats_in(Json::Object(members), nesting + 1) == stats_here(Json::Object(members))
            + stats_in_items(
            members@.map_values(|m: (String, Json)| m.1),
            members@.len(),
            nesting,
        ),
{
    reveal_with_fuel(stats_in_items, 2);
    let all = stats_in(value, nesting);
    assert(Seq::<Stats>::empty() + all =~= all);
    lemma_members(members@, members@.len(), nesting);
}

proof fn lemma_members(members: Seq<(String, Json)>, n: nat, nesting: nat)
    requires
        n <= members.len(),
    ensures
        stats_in_members(members, n, nesting) == stats_in_items(
            members.map_values(|m: (String, Json)| m.1),
            n,
            nesting,
        ),
    decreases n,
{
    if n > 0 {
        lemma_members(members, (n - 1) as nat, nesting);
    }
}

/// The versions of a message are those of its frame where they are numbers there, and else those of its
/// levels.
pub proof fn law_versions_of_the_frame_come_first(env: LighterEnvelope)
    ensures
        wire::value_of(env.nonce) is Some ==> env.nonce_value() == wire::value_of(env.nonce),
        wire::value_of(env.nonce) is None ==> (env.order_book matches Some(levels)
            ==> env.nonce_value() == wire::value_of(levels.nonce)),
        wire::value_of(env.nonce) is None && env.order_book is None ==> env.nonce_value() is None,
        wire::value_of(env.begin_nonce) is Some ==> env.begin_nonce_value() == wire::value_of(
            env.begin_nonce,
        ),
        wire::value_of(env.begin_nonce) is None ==> (env.order_book matches Some(levels)
            ==> env.begin_nonce_value() == wire::value_of(levels.begin_nonce)),
        wire::value_of(env.begin_nonce) is None && env.order_book is None
            ==> env.begin_nonce_value() is None,
{
}

/// What a message is for: a ping, a pong or an error where its type says so; else a book where it has
/// levels, and statistics where it has only those.
pub proof fn law_contents_tell_what_a_message_is_for(env: LighterEnvelope)
    ensures
        ({
            let plain = !text::contains_letters(env.kind@, "ping"@) && !text::contains_letters(
                env.kind@,
                "pong"@,
            ) && !text::contains_letters(env.kind@, "error"@);
            &&& text::contains_letters(env.kind@, "ping"@) <==> env.purpose()
                == LighterMessageKind::Ping
            &&& env.purpose() == LighterMessageKind::OrderBook <==> plain && env.order_book is Some
            &&& env.purpose() == LighterMessageKind::MarketStats <==> plain && env.order_book
                is None && env.market_stats is Some
            &&& text::contains_letters(env.kind@, "subscribed"@) || text::contains_letters(
                env.kind@,
                "snapshot"@,
            ) <==> env.stated_update() == Some(UpdateKind::Snapshot)
            &&& env.stated_update() == Some(UpdateKind::Update) ==> text::contains_letters(
                env.kind@,
                "update"@,
            )
            &&& env.stated_update() is None ==> !text::contains_letters(env.kind@, "update"@)
        }),
{
}

} // verus!

//! The messages of edgeX.
//!
//! A subscription to `depth.<contract id>.<levels>` brings a snapshot first and changes after it.
//! Numbers come with or without quotes, levels as lists or as objects.

use vstd::prelude::*;

use crate::decimal::Decimal;
use crate::ladder::Quote;
use crate::text;
use crate::wire;

pub use crate::wire::Num;

verus! {

/// The frame of a message.
#[derive(Debug)]
pub struct EdgeXEnvelope {
    pub kind: String,
    pub channel: Option<String>,
    pub content: Option<QuoteContent>,
    /// When the venue made the message (milliseconds since the epoch).
    pub ts: Option<Num>,
    pub time: Option<Num>,
}

/// What a message is for.
#[derive(Clone, Copy, Debug, PartialEq, Eq, Structural)]
pub enum EdgeXMessageKind {
    Depth,
    Ping,
    Pong,
    Control,
    Error,
    Unknown,
}

/// Whether levels are the whole book or a change of it.
#[derive(Clone, Copy, Debug, PartialEq, Eq, Structural)]
pub enum DataType {
    Snapshot,
    Changed,
    Unknown,
}

/// The body of a message.
#[derive(Debug)]
pub struct QuoteContent {
    pub data_type: Option<String>,
    pub channel: Option<String>,
    pub data: Vec<DepthData>,
}

/// The levels of one contract.
#[derive(Debug)]
pub struct DepthData {
    pub contract_id: Option<String>,
    pub contract_name: Option<String>,
    /// The version that a change builds on: the end version of the one before.
    pub start_version: Option<Num>,
    /// The version after this message.
    pub end_version: Option<Num>,
    pub level: Option<u32>,
    pub asks: Vec<RawLevel>,
    pub bids: Vec<RawLevel>,
}

/// One level, as a list of price and size or as an object.
#[derive(Clone, Debug)]
pub enum RawLevel {
    Tuple(Vec<Decimal>),
    Object { price: Decimal, size: Decimal },
}

impl Quote for RawLevel {
    open spec fn pair(&self) -> Option<(Decimal, Decimal)> {
        match *self {
            RawLevel::Tuple(v) => if v@.len() >= 2 {
                Some((v@[0], v@[1]))
            } else {
                None
            },
            RawLevel::Object { price, size } => Some((price, size)),
        }
    }

    /// The price and the size; `None` for a list that is too short.
    fn parts(&self) -> (r: Option<(Decimal, Decimal)>) {
        match self {
            RawLevel::Tuple(v) => if v.len() >= 2 {
                Some((v[0], v[1]))
            } else {
                None
            },
            RawLevel::Object { price, size } => Some((*price, *size)),
        }
    }
}

impl DepthData {
    /// Whether there is anything of a book in the data: a level, or the contract that it is about.
    pub open spec fn is_depth(self) -> bool {
        self.asks@.len() > 0 || self.bids@.len() > 0 || self.contract_id is Some
    }

    /// The version that a change builds on.
    pub fn start_version_u64(&self) -> (r: Option<u64>)
        ensures
            r == wire::value_of(self.start_version),
    {
        wire::number_of(&self.start_version)
    }

    /// The version after this message.
    pub fn end_version_u64(&self) -> (r: Option<u64>)
        ensures
            r == wire::value_of(self.end_version),
    {
        wire::number_of(&self.end_version)
    }
}

impl DataType {
    /// What a venue's word for the type of data means, in any case.
    pub open spec fn meaning(word: Seq<char>) -> DataType {
        if text::contains_letters(word, "snapshot"@) || text::same_letters(word, "all"@) {
            DataType::Snapshot
        } else if text::contains_letters(word, "chang"@) || text::contains_letters(word, "delta"@)
            || text::contains_letters(word, "update"@) {
            DataType::Changed
        } else {
            DataType::Unknown
        }
    }

    /// What a venue's word for the type of data means, in any case.
    pub fn parse(raw: &str) -> (r: DataType)
        ensures
            r == DataType::meaning(raw@),
    {
        if text::contains_ignore_case(raw, "snapshot") || text::eq_ignore_case(raw, "all") {
            DataType::Snapshot
        } else if text::contains_ignore_case(raw, "chang") || text::contains_ignore_case(
            raw,
            "delta",
        ) || text::contains_ignore_case(raw, "update") {
            DataType::Changed
        } else {
            DataType::Unknown
        }
    }
}

impl EdgeXEnvelope {
    /// When the venue made the message: `ts`, or else `time`.
    pub open spec fn time_ms(self) -> Option<u64> {
        match wire::value_of(self.ts) {
            Some(n) => Some(n),
            None => wire::value_of(self.time),
        }
    }

    /// The first data of the message, where it is a book's.
    pub open spec fn depth_data(self) -> Option<DepthData> {
        match self.content {
            Some(content) => if content.data@.len() > 0 && content.data@[0].is_depth() {
                Some(content.data@[0])
            } else {
                None
            },
            None => None,
        }
    }

    /// Whether the levels are the whole book or a change of it.
    pub open spec fn type_of_data(self) -> DataType {
        match self.content {
            Some(content) => match content.data_type {
                Some(word) => DataType::meaning(word@),
                None => DataType::Unknown,
            },
            None => DataType::Unknown,
        }
    }

    /// What the message is for.
    pub open spec fn purpose(self) -> EdgeXMessageKind {
        let kind = self.kind@;
        if text::same_letters(kind, "ping"@) {
            EdgeXMessageKind::Ping
        } else if text::same_letters(kind, "pong"@) {
            EdgeXMessageKind::Pong
        } else if text::same_letters(kind, "error"@) {
            EdgeXMessageKind::Error
        } else if text::same_letters(kind, "subscribed"@) || text::same_letters(
            kind,
            "unsubscribed"@,
        ) || text::same_letters(kind, "connected"@) {
            EdgeXMessageKind::Control
        } else if self.depth_data() is Some {
            EdgeXMessageKind::Depth
        } else if text::same_letters(kind, "quote-event"@) || text::same_letters(kind, "payload"@)
            || text::same_letters(kind, "snapshot"@) || text::same_letters(kind, "push"@) {
            EdgeXMessageKind::Control
        } else {
            EdgeXMessageKind::Unknown
        }
    }

    /// When the venue made the message (milliseconds since the epoch): `ts`, or else `time`.
    pub fn exchange_ts_ms(&self) -> (r: Option<u64>)
        ensures
            r == self.time_ms(),
    {
        match wire::number_of(&self.ts) {
            Some(n) => Some(n),
            None => wire::number_of(&self.time),
        }
    }

    /// What the message is for.
    pub fn message_kind(&self) -> (r: EdgeXMessageKind)
        ensures
            r == self.purpose(),
    {
        let kind = self.kind.as_str();
        if text::eq_ignore_case(kind, "ping") {
            EdgeXMessageKind::Ping
        } else if text::eq_ignore_case(kind, "pong") {
            EdgeXMessageKind::Pong
        } else if text::eq_ignore_case(kind, "error") {
            EdgeXMessageKind::Error
        } else if text::eq_ignore_case(kind, "subscribed") || text::eq_ignore_case(
            kind,
            "unsubscribed",
        ) || text::eq_ignore_case(kind, "connected") {
            EdgeXMessageKind::Control
        } else if self.depth().is_some() {
            EdgeXMessageKind::Depth
        } else if text::eq_ignore_case(kind, "quote-event") || text::eq_ignore_case(kind, "payload")
            || text::eq_ignore_case(kind, "snapshot") || text::eq_ignore_case(kind, "push") {
            EdgeXMessageKind::Control
        } else {
            EdgeXMessageKind::Unknown
        }
    }

    /// The first data of the message, where it is a book's. The data of another channel is not
    /// taken for an empty book.
    pub fn depth(&self) -> (r: Option<&DepthData>)
        ensures
            r matches Some(d) ==> self.depth_data() == Some(*d),
            r is None ==> self.depth_data() is None,
    {
        match &self.content {
            Some(content) => {
                if content.data.len() == 0 {
                    return None;
                }
                let data = &content.data[0];
                if data.asks.len() == 0 && data.bids.len() == 0 && data.contract_id.is_none() {
                    None
                } else {
                    Some(data)
                }
            },
            None => None,
        }
    }

    /// Whether the levels are the whole book or a change of it.
    pub fn data_type(&self) -> (r: DataType)
        ensures
            r == self.type_of_data(),
    {
        match &self.content {
            Some(content) => match &content.data_type {
                Some(word) => DataType::parse(word.as_str()),
                None => DataType::Unknown,
            },
            None => DataType::Unknown,
        }
    }
}

/// The name of a contract's channel.
pub open spec fn channel_name(contract_id: Seq<char>, level: nat) -> Seq<char> {
    "depth."@ + contract_id + "."@ + text::digits(level)
}

/// The name of a contract's channel, such as `depth.10000001.15`.
pub fn depth_channel(contract_id: &str, level: usize) -> (r: String)
    ensures
        r@ == channel_name(contract_id@, level as nat),
{
    let mut out = "depth.".to_owned();
    out.append(contract_id);
    out.append(".");
    out.append(text::number_text(level as u64).as_str());
    out
}

/// The message that subscribes to `channel`.
pub fn subscribe_message(channel: &str) -> (r: String)
    ensures
        r@ == "{\"type\":\"subscribe\",\"channel\":\""@ + channel@ + "\"}"@,
{
    let mut out = "{\"type\":\"subscribe\",\"channel\":\"".to_owned();
    out.append(channel);
    out.append("\"}");
    out
}

/// The message that ends the subscription to `channel`.
pub fn unsubscribe_message(channel: &str) -> (r: String)
    ensures
        r@ == "{\"type\":\"unsubscribe\",\"channel\":\""@ + channel@ + "\"}"@,
{
    let mut out = "{\"type\":\"unsubscribe\",\"channel\":\"".to_owned();
    out.append(channel);
    out.append("\"}");
    out
}

/// A ping.
pub fn ping_message(now_ms: u64) -> (r: String)
    ensures
        r@ == "{\"type\":\"ping\",\"time\":\""@ + text::digits(now_ms as nat) + "\"}"@,
{
    let mut out = "{\"type\":\"ping\",\"time\":\"".to_owned();
    out.append(text::number_text(now_ms).as_str());
    out.append("\"}");
    out
}

/// The answer to a ping.
pub fn pong_message(now_ms: u64) -> (r: String)
    ensures
        r@ == "{\"type\":\"pong\",\"time\":\""@ + text::digits(now_ms as nat) + "\"}"@,
{
    let mut out = "{\"type\":\"pong\",\"time\":\"".to_owned();
    out.append(text::number_text(now_ms).as_str());
    out.append("\"}");
    out
}

/// The contract's id in the name of a depth channel: what stands between the first two dots. There
/// is none where the name does not start with `depth` and a dot.
pub open spec fn contract_id_in(channel: Seq<char>) -> Option<Seq<char>> {
    let dot = text::next_mark(channel, '.', 0);
    if dot < channel.len() && channel.take(dot) == "depth"@ {
        Some(channel.subrange(dot + 1, text::next_mark(channel, '.', dot + 1)))
    } else {
        None
    }
}

/// The contract's id in the name of a depth channel: `10000001` for `depth.10000001.15`.
pub fn contract_id_from_channel(channel: &str) -> (r: Option<String>)
    ensures
        r is Some <==> contract_id_in(channel@) is Some,
        r matches Some(id) ==> contract_id_in(channel@) == Some(id@),
{
    let n: usize = channel.unicode_len();
    let dot: usize = text::find_mark(channel, '.', 0);
    if dot >= n {
        return None;
    }
    let first = channel.substring_char(0, dot);
    proof {
        assert(first@ =~= channel@.take(dot as int));
    }
    if !text::same_text(first, "depth") {
        return None;
    }
    let end: usize = text::find_mark(channel, '.', dot + 1);
    Some(channel.substring_char(dot + 1, end).to_owned())
}

/// A level says the same as an object and as a list: the price first, then the size, whatever stands
/// behind them. A list with fewer than two numbers says nothing.
pub proof fn law_levels_say_the_same_either_way(price: Decimal, size: Decimal, v: Vec<Decimal>)
    ensures
        (RawLevel::Object { price, size }).pair() == Some((price, size)),
        v@.len() >= 2 ==> RawLevel::Tuple(v).pair() == Some((v@[0], v@[1])),
        v@.len() < 2 ==> RawLevel::Tuple(v).pair() is None,
{
}

proof fn lemma_next_mark(s: Seq<char>, mark: char, from: int, at: int)
    requires
        0 <= from <= at < s.len(),
        s[at] == mark,
        forall|i: int| from <= i < at ==> #[trigger] s[i] != mark,
    ensures
        text::next_mark(s, mark, from) == at,
    decreases at - from,
{
    if from < at {
        lemma_next_mark(s, mark, from + 1, at);
    }
}

/// The name of a contract's channel gives the contract's id back, where the id has no dot, and ends
/// with the count of levels behind it.
pub proof fn law_channel_names_its_contract(id: Seq<char>, level: nat)
    requires
        forall|i: int| 0 <= i < id.len() ==> #[trigger] id[i] != '.',
    ensures
        contract_id_in(channel_name(id, level)) == Some(id),
        channel_name(id, level).skip(7 + id.len() as int) == text::digits(level),
{
    reveal_strlit("depth.");
    reveal_strlit("depth");
    reveal_strlit(".");
    let s = channel_name(id, level);
    let end = 6 + id.len();
    assert(s[5] == '.');
    assert forall|i: int| 0 <= i < 5 implies #[trigger] s[i] != '.' by {
        assert(s[i] == "depth."@[i]);
    }
    lemma_next_mark(s, '.', 0, 5);
    assert(s.take(5) =~= "depth"@);
    assert(s[end as int] == '.');
    assert forall|i: int| 6 <= i < end implies #[trigger] s[i] != '.' by {
        assert(s[i] == id[i - 6]);
    }
    lemma_next_mark(s, '.', 6, end as int);
    assert(s.subrange(6, end as int) =~= id);
    assert(s.skip(7 + id.len() as int) =~= text::digits(level));
}

/// The time of a message is `ts` where that is a number, and else `time`.
pub proof fn law_time_is_ts_or_else_time(env: EdgeXEnvelope)
    ensures
        wire::value_of(env.ts) is Some ==> env.time_ms() == wire::value_of(env.ts),
        wire::value_of(env.ts) is None ==> env.time_ms() == wire::value_of(env.time),
{
}

/// A message is one of a book exactly where its first data has a level or names a contract, unless its
/// type is one of those of the connection itself.
pub proof fn law_data_makes_a_book_message(env: EdgeXEnvelope)
    ensures
        env.depth_data() matches Some(data) ==> (env.content matches Some(content)
            && content.data@.len() > 0 && content.data@[0] == data) && (data.bids@.len() > 0
            || data.asks@.len() > 0 || data.contract_id is Some),
        env.purpose() == EdgeXMessageKind::Depth ==> env.depth_data() is Some,
        env.depth_data() is Some && env.purpose() != EdgeXMessageKind::Depth ==> env.purpose()
            == EdgeXMessageKind::Ping || env.purpose() == EdgeXMessageKind::Pong || env.purpose()
            == EdgeXMessageKind::Error || env.purpose() == EdgeXMessageKind::Control,
        text::same_letters(env.kind@, "ping"@) <==> env.purpose() == EdgeXMessageKind::Ping,
{
}

/// A word that tells of a snapshot, of a change, or of neither does so in any case, and wherever in a
/// longer word the part of it stands; a snapshot comes first.
pub proof fn law_words_tell_the_type_of_data(before: Seq<char>, after: Seq<char>, word: Seq<char>)
    ensures
        DataType::meaning(before + "snapshot"@ + after) == DataType::Snapshot,
        DataType::meaning(before + "chang"@ + after) != DataType::Unknown,
        DataType::meaning(before + "delta"@ + after) != DataType::Unknown,
        DataType::meaning(before + "update"@ + after) != DataType::Unknown,
        DataType::meaning(word) == DataType::Snapshot ==> text::contains_letters(word, "snapshot"@)
            || text::same_letters(word, "all"@),
        DataType::meaning(word) == DataType::Changed ==> !text::contains_letters(word, "snapshot"@)
            && (text::contains_letters(word, "chang"@) || text::contains_letters(word, "delta"@)
            || text::contains_letters(word, "update"@)),
        text::same_letters(word, "all"@) ==> DataType::meaning(word) == DataType::Snapshot,
{
    lemma_part_counts(before, "snapshot"@, after);
    lemma_part_counts(before, "chang"@, after);
    lemma_part_counts(before, "delta"@, after);
    lemma_part_counts(before, "update"@, after);
}

proof fn lemma_part_counts(before: Seq<char>, part: Seq<char>, after: Seq<char>)
    ensures
        text::contains_letters(before + part + after, part),
{
    let s = before + part + after;
    assert(s.subrange(before.len() as int, before.len() as int + part.len() as int) =~= part);
    assert(text::stands_in(s, part, before.len() as int));
}

/// The type of data is what the message's own word for it means; without a word it is not known.
pub proof fn law_type_of_data_is_what_its_word_means(env: EdgeXEnvelope)
    ensures
        env.content matches Some(content) ==> (content.data_type matches Some(word)
            ==> env.type_of_data() == DataType::meaning(word@)),
        env.content is None || env.content.unwrap().data_type is None ==> env.type_of_data()
            == DataType::Unknown,
{
}

} // verus!

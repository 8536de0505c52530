//! The messages of Aster.
//!
//! A change carries the first (`U`) and the last (`u`) of the update ids that it covers, and the
//! last one of the change before it (`pu`). Its quantities are not relative: each is what now stands
//! at the price, and zero means that the level is gone.

use vstd::prelude::*;

use crate::decimal::Decimal;
use crate::json::Json;
use crate::ladder::Quote;
use crate::symbol::{Dex, Symbol};
use crate::text;

verus! {

/// One level, as a list of price and quantity or as an object.
#[derive(Clone, Debug)]
pub enum RawLevel {
    Tuple(Vec<Decimal>),
    Object { price: Decimal, quantity: Decimal },
}

impl Quote for RawLevel {
    open spec fn pair(&self) -> Option<(Decimal, Decimal)> {
        match *self {
            RawLevel::Tuple(v) => if v@.len() >= 2 {
                Some((v@[0], v@[1]))
            } else {
                None
            },
            RawLevel::Object { price, quantity } => Some((price, quantity)),
        }
    }

    /// The price and the quantity; `None` for a list that is too short.
    fn parts(&self) -> (r: Option<(Decimal, Decimal)>) {
        match self {
            RawLevel::Tuple(v) => if v.len() >= 2 {
                Some((v[0], v[1]))
            } else {
                None
            },
            RawLevel::Object { price, quantity } => Some((*price, *quantity)),
        }
    }
}

/// A change of the book.
#[derive(Clone, Debug)]
pub struct DepthEvent {
    pub event_type: String,
    /// When the venue made the event (milliseconds since the epoch).
    pub event_time_ms: Option<u64>,
    pub transaction_time_ms: Option<u64>,
    pub symbol_raw: String,
    pub first_update_id: u64,
    pub final_update_id: u64,
    /// The last update id of the event before. Not every stream gives it.
    pub prev_final_update_id: Option<u64>,
    pub bids: Vec<RawLevel>,
    pub asks: Vec<RawLevel>,
}

impl DepthEvent {
    /// The instrument that the event is about.
    pub fn symbol(&self) -> (r: Option<Symbol>)
        ensures
            r == Symbol::called(Dex::Aster, self.symbol_raw@),
    {
        Symbol::from_dex_symbol(Dex::Aster, self.symbol_raw.as_str())
    }
}

/// The whole book, as REST gives it.
#[derive(Clone, Debug)]
pub struct DepthSnapshot {
    pub last_update_id: u64,
    pub event_time_ms: Option<u64>,
    pub transaction_time_ms: Option<u64>,
    pub bids: Vec<RawLevel>,
    pub asks: Vec<RawLevel>,
}

/// Where a message carries its event.
#[derive(Clone, Copy, Debug, PartialEq, Eq, Structural)]
pub enum EventAt {
    /// The message is the event.
    Root,
    /// The event stands in the member `data`, as it does on a combined stream.
    Data,
}

/// The value that carries the event of `root`, and where it stands.
pub open spec fn event_of(root: Json) -> (EventAt, Json) {
    match root.member("data"@) {
        Some(data) => if data is Object {
            (EventAt::Data, data)
        } else {
            (EventAt::Root, root)
        },
        None => (EventAt::Root, root),
    }
}

/// The type of event that `payload` states.
pub open spec fn event_type_of(payload: Json) -> Option<Seq<char>> {
    match payload.member("e"@) {
        Some(v) => v.text_of(),
        None => None,
    }
}

/// Where `root` carries a change of the book; `None` for any other message.
pub fn depth_event_at(root: &Json) -> (r: Option<EventAt>)
    ensures
        r == if event_type_of(event_of(*root).1) == Some("depthUpdate"@) {
            Some(event_of(*root).0)
        } else {
            None
        },
{
    let mut at = EventAt::Root;
    let mut payload = root;
    if let Some(data) = root.get("data") {
        if data.is_object() {
            at = EventAt::Data;
            payload = data;
        }
    }
    if let Some(v) = payload.get("e") {
        if let Some(kind) = v.as_text() {
            if text::same_text(kind.as_str(), "depthUpdate") {
                return Some(at);
            }
        }
    }
    None
}

/// The address of a stream that combines `streams`.
pub fn combined_stream_url(base_ws_url: &str, streams: &Vec<String>) -> (r: String)
    ensures
        r@ == text::without_end_slashes(base_ws_url@) + "/stream?streams="@ + text::joined(
            text::views(streams@),
            "/"@,
        ),
{
    let mut out = text::trim_end_slashes(base_ws_url).to_owned();
    out.append("/stream?streams=");
    out.append(text::join(streams, "/").as_str());
    out
}

/// A level says the same as an object and as a list: the price first, then the quantity, whatever stands
/// behind them. A list with fewer than two numbers says nothing.
pub proof fn law_levels_say_the_same_either_way(price: Decimal, quantity: Decimal, v: Vec<Decimal>)
    ensures
        (RawLevel::Object { price, quantity }).pair() == Some((price, quantity)),
        v@.len() >= 2 ==> RawLevel::Tuple(v).pair() == Some((v@[0], v@[1])),
        v@.len() < 2 ==> RawLevel::Tuple(v).pair() is None,
{
}

/// The event of a message stands in its member `data` exactly where that is an object; else the message
/// itself is the event.
pub proof fn law_where_the_event_stands(root: Json)
    ensures
        event_of(root).0 == EventAt::Data <==> (root.member("data"@) matches Some(data) && data
            is Object),
        event_of(root).0 == EventAt::Data ==> root.member("data"@) == Some(event_of(root).1),
        event_of(root).0 == EventAt::Root ==> event_of(root).1 == root,
{
}

} // verus!

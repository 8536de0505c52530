//! The messages of the dYdX v4 indexer.
//!
//! The server first says `connected`; only then may a subscription be sent. `subscribed` brings the
//! whole book, `channel_data` a change in which a size of zero means that the level is gone, and
//! `message_id` counts the messages of the connection.

use vstd::prelude::*;

use crate::json::Json;
use crate::text;
use crate::wire;

pub use crate::wire::{Num, PriceSize};

verus! {

/// The levels of a message.
#[derive(Debug)]
pub struct OrderBookContents {
    pub bids: Vec<PriceSize>,
    pub asks: Vec<PriceSize>,
}

/// The contents of a message, in the ways in which they can be read.
#[derive(Debug)]
pub struct Contents {
    /// The contents as levels, where they can be read so. A side that is not there is empty.
    pub direct: Option<OrderBookContents>,
    /// Whether the contents have a member `bids` or `asks`.
    pub names_a_side: bool,
    /// The member `orderbook` as levels, where it is there and can be read so.
    pub nested: Option<OrderBookContents>,
}

/// Whether the value has a member `bids` or `asks`.
pub fn names_a_side(value: &Json) -> (r: bool)
    ensures
        r == (value.member("bids"@) is Some || value.member("asks"@) is Some),
{
    value.get("bids").is_some() || value.get("asks").is_some()
}

/// The frame of a message.
#[derive(Debug)]
pub struct DydxEnvelope {
    pub kind: String,
    pub channel: Option<String>,
    /// The id of the market, such as `BTC-USD`.
    pub id: Option<String>,
    pub contents: Option<Contents>,
    /// The place of the message among those of the connection.
    pub message_id: Option<Num>,
    pub connection_id: Option<String>,
    /// What went wrong, in an `error`.
    pub message: Option<String>,
}

/// What a message is for.
#[derive(Clone, Copy, Debug, PartialEq, Eq, Structural)]
pub enum DydxMessageKind {
    /// The connection is ready: subscriptions may be sent.
    Connected,
    /// The answer to a subscription, with the whole book.
    Subscribed,
    /// A change.
    ChannelData,
    Unsubscribed,
    Error,
    Unknown,
}

impl DydxEnvelope {
    /// What the message is for.
    pub open spec fn purpose(self) -> DydxMessageKind {
        let kind = self.kind@;
        if kind == "connected"@ {
            DydxMessageKind::Connected
        } else if kind == "subscribed"@ {
            DydxMessageKind::Subscribed
        } else if kind == "channel_data"@ {
            DydxMessageKind::ChannelData
        } else if kind == "unsubscribed"@ {
            DydxMessageKind::Unsubscribed
        } else if kind == "error"@ {
            DydxMessageKind::Error
        } else {
            DydxMessageKind::Unknown
        }
    }

    /// Whether the message belongs to the channel of books.
    pub open spec fn of_orderbook(self) -> bool {
        self.channel matches Some(channel) && channel@ == "v4_orderbook"@
    }

    /// The levels of the message: the contents, or else their member `orderbook`. Contents with
    /// no level are levels only where they name a side: an empty book is a book.
    pub open spec fn levels(self) -> Option<OrderBookContents> {
        match self.contents {
            Some(contents) => match contents.direct {
                Some(levels) => if levels.bids@.len() > 0 || levels.asks@.len() > 0
                    || contents.names_a_side {
                    Some(levels)
                } else {
                    contents.nested
                },
                None => contents.nested,
            },
            None => None,
        }
    }

    /// What the message is for.
    pub fn message_kind(&self) -> (r: DydxMessageKind)
        ensures
            r == self.purpose(),
    {
        let kind = self.kind.as_str();
        if text::same_text(kind, "connected") {
            DydxMessageKind::Connected
        } else if text::same_text(kind, "subscribed") {
            DydxMessageKind::Subscribed
        } else if text::same_text(kind, "channel_data") {
            DydxMessageKind::ChannelData
        } else if text::same_text(kind, "unsubscribed") {
            DydxMessageKind::Unsubscribed
        } else if text::same_text(kind, "error") {
            DydxMessageKind::Error
        } else {
            DydxMessageKind::Unknown
        }
    }

    /// The place of the message among those of the connection.
    pub fn message_id(&self) -> (r: Option<u64>)
        ensures
            r == wire::value_of(self.message_id),
    {
        wire::number_of(&self.message_id)
    }

    /// Whether the message belongs to the channel of books.
    pub fn is_orderbook(&self) -> (r: bool)
        ensures
            r == self.of_orderbook(),
    {
        match &self.channel {
            Some(channel) => text::same_text(channel.as_str(), "v4_orderbook"),
            None => false,
        }
    }

    /// The levels of the message.
    pub fn order_book(&self) -> (r: Option<&OrderBookContents>)
        ensures
            r matches Some(levels) ==> self.levels() == Some(*levels),
            r is None ==> self.levels() is None,
    {
        match &self.contents {
            Some(contents) => {
                if let Some(levels) = &contents.direct {
                    if levels.bids.len() > 0 || levels.asks.len() > 0 || contents.names_a_side {
                        return Some(levels);
                    }
                }
                match &contents.nested {
                    Some(levels) => Some(levels),
                    None => None,
                }
            },
            None => None,
        }
    }
}

/// The message that subscribes to the book of `market`.
pub fn subscribe_message(market: &str) -> (r: String)
    ensures
        r@ == "{\"type\":\"subscribe\",\"channel\":\"v4_orderbook\",\"id\":\""@ + market@ + "\"}"@,
{
    let mut out = "{\"type\":\"subscribe\",\"channel\":\"v4_orderbook\",\"id\":\"".to_owned();
    out.append(market);
    out.append("\"}");
    out
}

/// The message that ends the subscription to the book of `market`.
pub fn unsubscribe_message(market: &str) -> (r: String)
    ensures
        r@ == "{\"type\":\"unsubscribe\",\"channel\":\"v4_orderbook\",\"id\":\""@ + market@
            + "\"}"@,
{
    let mut out = "{\"type\":\"unsubscribe\",\"channel\":\"v4_orderbook\",\"id\":\"".to_owned();
    out.append(market);
    out.append("\"}");
    out
}

/// The levels of a message are its contents, where they hold a level or name a side, and else what is
/// nested in them; without contents there are none.
pub proof fn law_contents_come_before_what_is_nested(env: DydxEnvelope)
    ensures
        env.contents is None ==> env.levels() is None,
        env.contents matches Some(contents) ==> match contents.direct {
            Some(direct) => {
                &&& direct.bids@.len() > 0 || direct.asks@.len() > 0 || contents.names_a_side
                    ==> env.levels() == Some(direct)
                &&& direct.bids@.len() == 0 && direct.asks@.len() == 0 && !contents.names_a_side
                    ==> env.levels() == contents.nested
            },
            None => env.levels() == contents.nested,
        },
{
}

/// What a message is for goes by its whole type: each of the types that are known has a purpose of its
/// own, and no other has one.
pub proof fn law_types_tell_what_a_message_is_for(env: DydxEnvelope)
    ensures
        env.purpose() == DydxMessageKind::Connected <==> env.kind@ == "connected"@,
        env.purpose() == DydxMessageKind::Subscribed <==> env.kind@ == "subscribed"@,
        env.purpose() == DydxMessageKind::ChannelData <==> env.kind@ == "channel_data"@,
        env.purpose() == DydxMessageKind::Unsubscribed <==> env.kind@ == "unsubscribed"@,
        env.purpose() == DydxMessageKind::Error <==> env.kind@ == "error"@,
        env.of_orderbook() <==> (env.channel matches Some(channel) && channel@ == "v4_orderbook"@),
{
    reveal_strlit("connected");
    reveal_strlit("subscribed");
    reveal_strlit("channel_data");
    reveal_strlit("unsubscribed");
    reveal_strlit("error");
    assert("connected"@[0] == 'c' && "connected"@.len() == 9);
    assert("subscribed"@.len() == 10);
    assert("channel_data"@[0] == 'c' && "channel_data"@.len() == 12);
    assert("unsubscribed"@[0] == 'u' && "unsubscribed"@.len() == 12);
    assert("error"@.len() == 5);
}

} // verus!

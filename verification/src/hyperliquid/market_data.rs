//! The market data of Hyperliquid: what is done on each message.
//!
//! Every message of books brings a whole book, so no state is kept between messages. Funding rates
//! ride on the connection of the books.

use vstd::prelude::*;

use crate::backoff::{Backoff, Progress};
use crate::book::{BookView, OrderBook};
use crate::config::HyperliquidConfig;
use crate::decimal::Decimal;
use crate::funding::FundingRate;
use crate::hyperliquid::message;
use crate::hyperliquid::message::{HlMessage, SubscribeRequest};
use crate::metrics::{SourceCounters, SourceMetrics};
use crate::source;
use crate::source::{ChannelState, FundingChannel, MarketDataError, Next, SendResult, SessionEnd};
use crate::status::{ConnectionState, ConnectionStatus};
use crate::symbol::{Dex, Symbol};
use crate::time::{Clock, Duration, Instant};
use crate::trace::MessageTrace;

verus! {

/// What has come in.
#[derive(Debug)]
pub enum Incoming {
    Message(HlMessage),
    /// A message that could not be read.
    Unreadable,
}

/// What is to be done.
#[derive(Clone, Debug)]
pub enum Reaction {
    Nothing,
    /// The book is to be handed on.
    Emit(OrderBook),
    /// The funding rate is to be handed on.
    Publish(FundingRate),
}

/// What a reaction says.
#[verifier::ext_equal]
pub enum Reacted {
    Nothing,
    Emit(BookView),
    Publish(FundingRate),
}

impl View for Reaction {
    type V = Reacted;

    open spec fn view(&self) -> Reacted {
        match *self {
            Reaction::Nothing => Reacted::Nothing,
            Reaction::Emit(book) => Reacted::Emit(book@),
            Reaction::Publish(rate) => Reacted::Publish(rate),
        }
    }
}

/// The messages that subscribe to one instrument.
#[derive(Clone, Debug)]
pub struct Subscriptions {
    /// The one for the book. Without it the connection is of no use.
    pub book: String,
    /// The one for the context, where funding rates are handed on. The books go on without it.
    pub context: Option<String>,
}

/// How the source stands.
#[verifier::ext_equal]
pub struct Feed {
    pub counts: SourceMetrics,
    pub status: ConnectionStatus,
    pub funding: ChannelState,
    /// Whether funding rates are handed on.
    pub collects: bool,
    /// The interval of funding, in hours, where it is configured. The venue does not give it.
    pub interval_hours: Option<Decimal>,
    /// How many levels are shown on each side.
    pub depth: nat,
}

/// A message has come in at `at`. A book that cannot be made, or that is crossed, counts as a message
/// that could not be read: on this venue a crossed book is broken data.
pub open spec fn after_message(
    feed: Feed,
    incoming: Incoming,
    trace: MessageTrace,
    at: Instant,
) -> (Feed, Reacted) {
    let counted = Feed { counts: feed.counts.with_message(), ..feed };
    let failed = Feed { counts: counted.counts.with_parse_error(), ..feed };
    match incoming {
        Incoming::Unreadable => (failed, Reacted::Nothing),
        Incoming::Message(HlMessage::L2Book { data }) => match message::book_in(
            data,
            feed.depth,
            trace,
            at,
        ) {
            Some(book) => if book.crossed() {
                (failed, Reacted::Nothing)
            } else {
                (counted, Reacted::Emit(book))
            },
            None => (failed, Reacted::Nothing),
        },
        Incoming::Message(HlMessage::ActiveAssetCtx { data }) => match message::funding_in(
            data,
            feed.interval_hours,
            MessageTrace { normalized_instant: Some(at), ..trace },
        ) {
            Some(rate) => (counted, Reacted::Publish(rate)),
            None => (counted, Reacted::Nothing),
        },
        Incoming::Message(_) => (counted, Reacted::Nothing),
    }
}

/// The market data of Hyperliquid.
pub struct HyperliquidMarketData {
    cfg: HyperliquidConfig,
    state: ConnectionState,
    counters: SourceCounters,
    funding: FundingChannel,
    collect_funding: bool,
    funding_interval_hours: Option<Decimal>,
    depth: usize,
}

impl View for HyperliquidMarketData {
    type V = Feed;

    closed spec fn view(&self) -> Feed {
        Feed {
            counts: self.counters@,
            status: self.state@,
            funding: self.funding@,
            collects: self.collect_funding,
            interval_hours: self.funding_interval_hours,
            depth: self.depth as nat,
        }
    }
}

impl HyperliquidMarketData {
    /// The configuration.
    pub closed spec fn config_of(self) -> HyperliquidConfig {
        self.cfg
    }

    /// A source that is not connected and hands on no funding rates.
    pub fn new(cfg: HyperliquidConfig) -> (r: HyperliquidMarketData)
        ensures
            r.config_of() == cfg,
            r@ == (Feed {
                counts: SourceMetrics::none(),
                status: ConnectionStatus::Disconnected,
                funding: ChannelState { registered: false, published: 0, dropped: 0 },
                collects: false,
                interval_hours: None,
                depth: 0,
            }),
    {
        HyperliquidMarketData {
            cfg,
            state: ConnectionState::new(),
            counters: SourceCounters::new(),
            funding: FundingChannel::new(),
            collect_funding: false,
            funding_interval_hours: None,
            depth: 0,
        }
    }

    /// The source with funding rates handed on or not, and with the interval of funding, in hours,
    /// where it is configured. Where they are not, no context is subscribed to.
    pub fn with_funding(self, enabled: bool, interval_hours: Option<Decimal>) -> (r:
        HyperliquidMarketData)
        ensures
            r.config_of() == self.config_of(),
            r@ == (Feed { collects: enabled, interval_hours, ..self@ }),
    {
        let mut r = self;
        r.collect_funding = enabled;
        r.funding_interval_hours = interval_hours;
        r
    }

    /// Who takes the funding rates.
    pub fn funding_channel(&self) -> (r: &FundingChannel)
        ensures
            r@ == self@.funding,
    {
        &self.funding
    }

    /// How many messages came in.
    pub fn messages_received(&self) -> (r: u64)
        ensures
            r == self@.counts.messages_received,
    {
        self.counters.snapshot().messages_received
    }

    /// How many books went out.
    pub fn books_emitted(&self) -> (r: u64)
        ensures
            r == self@.counts.books_emitted,
    {
        self.counters.snapshot().books_emitted
    }

    /// How many messages could not be read.
    pub fn parse_errors(&self) -> (r: u64)
        ensures
            r == self@.counts.parse_errors,
    {
        self.counters.snapshot().parse_errors
    }

    /// The venue.
    pub fn dex(&self) -> (r: Dex)
        ensures
            r == Dex::Hyperliquid,
    {
        Dex::Hyperliquid
    }

    /// How the connection stands.
    pub fn connection_status(&self) -> (r: ConnectionStatus)
        ensures
            r == self@.status,
    {
        self.state.get()
    }

    /// The counts. With whole books there is no gap and nothing is built anew.
    pub fn metrics(&self) -> (r: SourceMetrics)
        ensures
            r == (SourceMetrics { sequence_gaps: 0, resyncs: 0, crossed_books: 0, ..self@.counts }),
    {
        SourceMetrics { sequence_gaps: 0, resyncs: 0, crossed_books: 0, ..self.counters.snapshot() }
    }

    /// The delays between attempts to connect.
    pub fn backoff(&self) -> (r: Backoff)
        ensures
            r.wf(),
            r@ == Progress::of_policy(
                self.config_of().reconnect_base_delay_ms,
                self.config_of().reconnect_max_delay_ms,
                self.config_of().reconnect_max_attempts,
            ),
    {
        let policy = self.cfg.reconnect_policy();
        Backoff::new(policy.base_delay_ms, policy.max_delay_ms, policy.max_attempts)
    }

    /// The span between two pings: a second at least.
    pub fn ping_interval(&self) -> (r: Duration)
        ensures
            r.nanos == 1_000_000_000 * if self.config_of().ping_interval_secs == 0 {
                1
            } else {
                self.config_of().ping_interval_secs as int
            },
    {
        Duration::from_secs(
            if self.cfg.ping_interval_secs == 0 {
                1
            } else {
                self.cfg.ping_interval_secs
            },
        )
    }

    /// Notes that a connection stands. `depth` levels are shown on each side.
    pub fn begin_session(&mut self, depth: usize, backoff: &mut Backoff)
        requires
            old(backoff).wf(),
        ensures
            final(self).config_of() == old(self).config_of(),
            final(backoff).wf(),
            final(backoff)@ == (Progress { attempt: 0, ..old(backoff)@ }),
            final(self)@ == (Feed {
                status: ConnectionStatus::Connected,
                depth: depth as nat,
                ..old(self)@
            }),
    {
        source::session_started(&mut self.state, backoff);
        self.depth = depth;
    }

    /// The messages that subscribe to `symbol`.
    pub fn subscriptions(&self, symbol: Symbol) -> (r: Subscriptions)
        ensures
            r.book@ == "{\"method\":\""@ + "subscribe"@ + "\",\"subscription\":{\"type\":\""@
                + "l2Book"@ + "\",\"coin\":\""@ + symbol.dex_name(Dex::Hyperliquid) + "\"}}"@,
            r.context is Some <==> self@.collects,
            r.context matches Some(text) ==> text@ == "{\"method\":\""@ + "subscribe"@
                + "\",\"subscription\":{\"type\":\""@ + "activeAssetCtx"@ + "\",\"coin\":\""@
                + symbol.dex_name(Dex::Hyperliquid) + "\"}}"@,
    {
        Subscriptions {
            book: SubscribeRequest::l2_book(symbol).to_text(),
            context: if self.collect_funding {
                Some(SubscribeRequest::active_asset_ctx(symbol).to_text())
            } else {
                None
            },
        }
    }

    /// Takes in a message; `at` is the time at which that is done.
    pub fn on_message_at(&mut self, incoming: &Incoming, trace: MessageTrace, at: Instant) -> (r:
        Reaction)
        ensures
            final(self).config_of() == old(self).config_of(),
            (final(self)@, r@) == after_message(old(self)@, *incoming, trace, at),
            r matches Reaction::Emit(book) ==> book.fault() is None,
    {
        self.counters.record_message();
        match incoming {
            Incoming::Unreadable => {
                self.counters.record_parse_error();
                Reaction::Nothing
            },
            Incoming::Message(HlMessage::L2Book { data }) => {
                match message::to_order_book_at(data, self.depth, trace, at) {
                    Ok(book) if !book.is_crossed() => Reaction::Emit(book),
                    _ => {
                        self.counters.record_parse_error();
                        Reaction::Nothing
                    },
                }
            },
            Incoming::Message(HlMessage::ActiveAssetCtx { data }) => {
                match message::to_funding_rate_at(data, self.funding_interval_hours, trace, at) {
                    Some(rate) => Reaction::Publish(rate),
                    None => Reaction::Nothing,
                }
            },
            Incoming::Message(_) => Reaction::Nothing,
        }
    }

    /// Takes in a message.
    pub fn on_message(&mut self, incoming: &Incoming, trace: MessageTrace, clock: &Clock) -> (r:
        Reaction)
        ensures
            final(self).config_of() == old(self).config_of(),
            exists|at: Instant|
                (final(self)@, r@) == #[trigger] after_message(old(self)@, *incoming, trace, at),
            r matches Reaction::Emit(book) ==> book.fault() is None,
    {
        self.counters.record_message();
        let r = match incoming {
            Incoming::Unreadable => {
                self.counters.record_parse_error();
                Reaction::Nothing
            },
            Incoming::Message(HlMessage::L2Book { data }) => {
                match message::to_order_book(data, self.depth, trace, clock) {
                    Ok(book) if !book.is_crossed() => Reaction::Emit(book),
                    _ => {
                        self.counters.record_parse_error();
                        Reaction::Nothing
                    },
                }
            },
            Incoming::Message(HlMessage::ActiveAssetCtx { data }) => {
                match message::to_funding_rate(data, self.funding_interval_hours, trace, clock) {
                    Some(rate) => Reaction::Publish(rate),
                    None => Reaction::Nothing,
                }
            },
            Incoming::Message(_) => Reaction::Nothing,
        };
        proof {
            let at = match r@ {
                Reacted::Nothing => Instant { nanos: 0 },
                Reacted::Emit(book) => book.trace.normalized_instant.unwrap(),
                Reacted::Publish(rate) => rate.trace.normalized_instant.unwrap(),
            };
            assert((self@, r@) == after_message(old(self)@, *incoming, trace, at));
        }
        r
    }

    /// Notes that a book was handed on.
    pub fn book_sent(&mut self)
        ensures
            final(self).config_of() == old(self).config_of(),
            final(self)@ == (Feed { counts: old(self)@.counts.with_book(), ..old(self)@ }),
    {
        self.counters.record_book();
    }

    /// Notes that somebody takes the funding rates; refused where none are handed on.
    pub fn subscribe_funding(&mut self) -> (r: Result<(), MarketDataError>)
        ensures
            final(self).config_of() == old(self).config_of(),
            r is Ok <==> old(self)@.collects,
            final(self)@ == if old(self)@.collects {
                Feed {
                    funding: ChannelState { registered: true, ..old(self)@.funding },
                    ..old(self)@
                }
            } else {
                old(self)@
            },
            r matches Err(e) ==> e matches MarketDataError::Config(s) && s@
                == "activeAssetCtx の購読が無効です（with_funding を確認してください）"@,
    {
        if !self.collect_funding {
            return Err(
                MarketDataError::Config(
                    "activeAssetCtx の購読が無効です（with_funding を確認してください）".to_owned(),
                ),
            );
        }
        self.funding.register();
        Ok(())
    }

    /// Notes that nobody takes the funding rates any more.
    pub fn unsubscribe_funding(&mut self)
        ensures
            final(self).config_of() == old(self).config_of(),
            final(self)@ == (Feed {
                funding: ChannelState { registered: false, ..old(self)@.funding },
                ..old(self)@
            }),
    {
        self.funding.clear();
    }

    /// Notes what became of a funding rate, and says whether it went through.
    pub fn rate_sent(&mut self, result: SendResult) -> (r: bool)
        ensures
            final(self).config_of() == old(self).config_of(),
            r == (old(self)@.funding.registered && result is Sent),
            final(self)@ == (Feed {
                funding: source::after_rate(old(self)@.funding, result),
                ..old(self)@
            }),
    {
        self.funding.publish(result)
    }

    /// Decides how to go on after a connection has ended.
    pub fn end_session(&mut self, backoff: &mut Backoff, end: SessionEnd) -> (r: Next)
        requires
            old(backoff).wf(),
        ensures
            final(self).config_of() == old(self).config_of(),
            final(self)@ == (Feed { status: final(self)@.status, ..old(self)@ }),
            source::went_on(old(backoff)@, end, final(self)@.status, final(backoff)@, r),
            final(backoff).wf(),
    {
        source::after_session(&mut self.state, backoff, end)
    }
}

/// A message about funding leaves the counts of the books alone, whatever is in it: a rate that
/// cannot be read does not disturb the books.
pub proof fn law_funding_does_not_disturb_books(
    feed: Feed,
    data: message::ActiveAssetCtxData,
    trace: MessageTrace,
    at: Instant,
)
    ensures
        after_message(
            feed,
            Incoming::Message(HlMessage::ActiveAssetCtx { data }),
            trace,
            at,
        ).0.counts == feed.counts.with_message(),
{
}

/// A crossed book is never handed on: it counts as a message that could not be read.
pub proof fn law_crossed_books_are_refused(
    feed: Feed,
    data: message::L2BookData,
    trace: MessageTrace,
    at: Instant,
)
    requires
        message::book_in(data, feed.depth, trace, at) matches Some(book) && book.crossed(),
    ensures
        after_message(feed, Incoming::Message(HlMessage::L2Book { data }), trace, at) == (
            Feed { counts: feed.counts.with_message().with_parse_error(), ..feed },
            Reacted::Nothing,
        ),
{
}

/// What is made of a message does not depend on the messages before it.
pub proof fn law_messages_stand_alone(
    feed: Feed,
    other: Feed,
    incoming: Incoming,
    trace: MessageTrace,
    at: Instant,
)
    requires
        feed.depth == other.depth,
        feed.interval_hours == other.interval_hours,
    ensures
        after_message(feed, incoming, trace, at).1 == after_message(other, incoming, trace, at).1,
{
}

/// Every readable book that does not cross is handed on, every readable rate is published, and a
/// message that gives neither is only counted.
pub proof fn law_what_becomes_of_a_message(
    feed: Feed,
    incoming: Incoming,
    trace: MessageTrace,
    at: Instant,
)
    ensures
        ({
            let (after, reaction) = after_message(feed, incoming, trace, at);
            &&& after == (Feed { counts: after.counts, ..feed })
            &&& after.counts.messages_received == feed.counts.messages_received.wrapping_add(1)
            &&& after.counts.books_emitted == feed.counts.books_emitted
            &&& match incoming {
                Incoming::Message(HlMessage::L2Book { data }) => match message::book_in(
                    data,
                    feed.depth,
                    trace,
                    at,
                ) {
                    Some(book) if !book.crossed() => reaction == Reacted::Emit(book)
                        && after.counts.parse_errors == feed.counts.parse_errors,
                    _ => reaction is Nothing && after.counts.parse_errors
                        == feed.counts.parse_errors.wrapping_add(1),
                },
                Incoming::Message(HlMessage::ActiveAssetCtx { data }) => after.counts.parse_errors
                    == feed.counts.parse_errors && match message::funding_in(
                    data,
                    feed.interval_hours,
                    MessageTrace { normalized_instant: Some(at), ..trace },
                ) {
                    Some(rate) => reaction == Reacted::Publish(rate),
                    None => reaction is Nothing,
                },
                Incoming::Unreadable => reaction is Nothing && after.counts.parse_errors
                    == feed.counts.parse_errors.wrapping_add(1),
                _ => reaction is Nothing && after.counts.parse_errors == feed.counts.parse_errors,
            }
        }),
{
}

} // verus!

//! What the sources of market data have in common: their errors, and how they go on after a
//! connection has ended.

use vstd::prelude::*;

use crate::backoff::{Backoff, Progress};
use crate::status::{ConnectionState, ConnectionStatus};
use crate::symbol::Symbol;
use crate::text;
use crate::time;
use crate::time::Duration;

verus! {

/// Why a source stopped or a message was refused.
#[derive(Clone, Debug, PartialEq, Eq)]
pub enum MarketDataError {
    WebSocket(String),
    Parse(String),
    Subscribe(String),
    Config(String),
    /// Nobody takes the books any more.
    ChannelClosed,
    /// There are no more attempts to connect.
    ReconnectExhausted { attempts: u32 },
}

impl MarketDataError {
    /// The error in words.
    pub fn message(&self) -> (r: String)
        ensures
            r@ == match *self {
                MarketDataError::WebSocket(s) => "WebSocket エラー: "@ + s@,
                MarketDataError::Parse(s) => "メッセージのパースに失敗: "@ + s@,
                MarketDataError::Subscribe(s) => "購読に失敗: "@ + s@,
                MarketDataError::Config(s) => "設定が不正: "@ + s@,
                MarketDataError::ChannelClosed => "下流チャネルが閉じられた"@,
                MarketDataError::ReconnectExhausted { attempts } =>
                    "再接続の上限に到達 ("@ + text::digits(attempts as nat) + " 回)"@,
            },
    {
        match self {
            MarketDataError::WebSocket(s) => {
                let mut out = "WebSocket エラー: ".to_owned();
                out.append(s.as_str());
                out
            },
            MarketDataError::Parse(s) => {
                let mut out = "メッセージのパースに失敗: ".to_owned();
                out.append(s.as_str());
                out
            },
            MarketDataError::Subscribe(s) => {
                let mut out = "購読に失敗: ".to_owned();
                out.append(s.as_str());
                out
            },
            MarketDataError::Config(s) => {
                let mut out = "設定が不正: ".to_owned();
                out.append(s.as_str());
                out
            },
            MarketDataError::ChannelClosed => "下流チャネルが閉じられた".to_owned(),
            MarketDataError::ReconnectExhausted { attempts } => {
                let mut out = "再接続の上限に到達 (".to_owned();
                out.append(text::number_text(*attempts as u64).as_str());
                out.append(" 回)");
                out
            },
        }
    }
}

/// How a connection ended.
#[derive(Clone, Copy, Debug, PartialEq, Eq, Structural)]
pub enum SessionEnd {
    /// The venue, or a plan to connect anew, ended it.
    Closed,
    /// It broke.
    Failed,
    /// Nobody takes the books any more.
    ChannelClosed,
}

/// How a source goes on after a connection has ended.
#[derive(Clone, Debug, PartialEq, Eq)]
pub enum Next {
    /// It connects again after the span.
    Wait(Duration),
    /// It stops.
    Stop(MarketDataError),
}

/// Checks that there is something to subscribe to.
pub fn check_symbols(symbols: &[Symbol]) -> (r: Result<(), MarketDataError>)
    ensures
        r is Ok <==> symbols@.len() > 0,
        r matches Err(e) ==> e matches MarketDataError::Config(s) && s@
            == "購読する銘柄が指定されていません"@,
{
    if symbols.len() == 0 {
        Err(MarketDataError::Config("購読する銘柄が指定されていません".to_owned()))
    } else {
        Ok(())
    }
}

/// Notes that a connection stands: the attempts start over.
pub fn session_started(state: &mut ConnectionState, backoff: &mut Backoff)
    requires
        old(backoff).wf(),
    ensures
        final(state)@ == ConnectionStatus::Connected,
        final(backoff).wf(),
        final(backoff)@ == (Progress { attempt: 0, ..old(backoff)@ }),
{
    state.set_connected();
    backoff.reset();
}

/// Decides how to go on after a connection has ended, where the clock shows `nanos` nanoseconds: a
/// source whose books nobody takes stops, as does one without attempts left; any other one waits
/// and connects again.
pub fn after_session_at(
    state: &mut ConnectionState,
    backoff: &mut Backoff,
    end: SessionEnd,
    nanos: u32,
) -> (r: Next)
    requires
        old(backoff).wf(),
    ensures
        final(backoff).wf(),
        final(backoff)@ == if end is ChannelClosed || old(backoff)@.exhausted() {
            old(backoff)@
        } else {
            old(backoff)@.advanced()
        },
        final(state)@ == if end is ChannelClosed || old(backoff)@.exhausted() {
            ConnectionStatus::Disconnected
        } else {
            ConnectionStatus::Reconnecting { attempts: old(backoff)@.advanced().attempt }
        },
        end is ChannelClosed ==> r == Next::Stop(MarketDataError::ChannelClosed),
        !(end is ChannelClosed) && old(backoff)@.exhausted() ==> r == Next::Stop(
            MarketDataError::ReconnectExhausted { attempts: old(backoff)@.attempt },
        ),
        !(end is ChannelClosed) && !old(backoff)@.exhausted() ==> (r matches Next::Wait(delay)
            && delay.nanos == crate::backoff::spread_ms(
            old(backoff)@.plain_delay_ms(),
            nanos as nat,
        ) * 1_000_000),
{
    if matches!(end, SessionEnd::ChannelClosed) {
        state.set_disconnected();
        return Next::Stop(MarketDataError::ChannelClosed);
    }
    match backoff.next_delay_at(nanos) {
        Some(delay) => {
            state.set_reconnecting(backoff.attempt());
            Next::Wait(delay)
        },
        None => {
            state.set_disconnected();
            Next::Stop(MarketDataError::ReconnectExhausted { attempts: backoff.attempt() })
        },
    }
}

/// Whether a source goes on as it should after a connection has ended: `before` and `after` are the
/// attempts to connect, `status` is how the connection stands, `next` what is decided. The delay
/// depends on the clock.
pub open spec fn went_on(
    before: Progress,
    end: SessionEnd,
    status: ConnectionStatus,
    after: Progress,
    next: Next,
) -> bool {
    if end is ChannelClosed {
        &&& status == ConnectionStatus::Disconnected
        &&& after == before
        &&& next == Next::Stop(MarketDataError::ChannelClosed)
    } else if before.exhausted() {
        &&& status == ConnectionStatus::Disconnected
        &&& after == before
        &&& next == Next::Stop(
            MarketDataError::ReconnectExhausted { attempts: before.attempt },
        )
    } else {
        &&& status == ConnectionStatus::Reconnecting { attempts: before.advanced().attempt }
        &&& after == before.advanced()
        &&& next matches Next::Wait(delay) && exists|nanos: nat|
            delay.nanos == #[trigger] crate::backoff::spread_ms(before.plain_delay_ms(), nanos)
                * 1_000_000
    }
}

/// Decides how to go on after a connection has ended: a source whose books nobody takes stops, as
/// does one without attempts left; any other one waits and connects again.
pub fn after_session(state: &mut ConnectionState, backoff: &mut Backoff, end: SessionEnd) -> (r:
    Next)
    requires
        old(backoff).wf(),
    ensures
        final(backoff).wf(),
        went_on(old(backoff)@, end, final(state)@, final(backoff)@, r),
{
    let nanos: u32 = time::wall_subsec_nanos();
    after_session_at(state, backoff, end, nanos)
}

/// What became of a rate that was handed on.
#[derive(Clone, Copy, Debug, PartialEq, Eq, Structural)]
pub enum SendResult {
    Sent,
    /// There was no room.
    Full,
    /// Nobody takes the rates any more.
    Closed,
}

/// Who takes the funding rates of a source, and how many went through. Rates ride on the connection
/// of the books, so a rate for which there is no room is dropped: the books must not wait for it.
#[derive(Clone, Copy, Debug, PartialEq, Eq, Structural)]
pub struct FundingChannel {
    registered: bool,
    published: u64,
    dropped: u64,
}

/// The state of a channel of rates.
pub struct ChannelState {
    pub registered: bool,
    pub published: u64,
    pub dropped: u64,
}

impl View for FundingChannel {
    type V = ChannelState;

    closed spec fn view(&self) -> ChannelState {
        ChannelState {
            registered: self.registered,
            published: self.published,
            dropped: self.dropped,
        }
    }
}

/// The channel after a rate that was handed on. Where nobody takes the rates nothing is counted.
pub open spec fn after_rate(channel: ChannelState, result: SendResult) -> ChannelState {
    if !channel.registered {
        channel
    } else {
        match result {
            SendResult::Sent => ChannelState {
                published: channel.published.wrapping_add(1),
                ..channel
            },
            SendResult::Full => ChannelState { dropped: channel.dropped.wrapping_add(1), ..channel },
            SendResult::Closed => ChannelState { registered: false, ..channel },
        }
    }
}

impl FundingChannel {
    /// Nobody takes the rates yet.
    pub fn new() -> (r: FundingChannel)
        ensures
            r@ == (ChannelState { registered: false, published: 0, dropped: 0 }),
    {
        FundingChannel { registered: false, published: 0, dropped: 0 }
    }

    /// Notes that somebody takes the rates.
    pub fn register(&mut self)
        ensures
            final(self)@ == (ChannelState { registered: true, ..old(self)@ }),
    {
        self.registered = true;
    }

    /// Notes that nobody takes the rates any more.
    pub fn clear(&mut self)
        ensures
            final(self)@ == (ChannelState { registered: false, ..old(self)@ }),
    {
        self.registered = false;
    }

    /// Whether somebody takes the rates.
    pub fn is_registered(&self) -> (r: bool)
        ensures
            r == self@.registered,
    {
        self.registered
    }

    /// How many rates went through.
    pub fn published(&self) -> (r: u64)
        ensures
            r == self@.published,
    {
        self.published
    }

    /// How many rates were dropped for want of room.
    pub fn dropped(&self) -> (r: u64)
        ensures
            r == self@.dropped,
    {
        self.dropped
    }

    /// Notes what became of a rate that was handed on, and says whether it went through. Where
    /// nobody takes the rates nothing is counted.
    pub fn publish(&mut self, result: SendResult) -> (r: bool)
        ensures
            r == (old(self)@.registered && result is Sent),
            final(self)@ == after_rate(old(self)@, result),
    {
        if !self.registered {
            return false;
        }
        match result {
            SendResult::Sent => {
                self.published = self.published.wrapping_add(1);
                true
            },
            SendResult::Full => {
                self.dropped = self.dropped.wrapping_add(1);
                false
            },
            SendResult::Closed => {
                self.registered = false;
                false
            },
        }
    }

    /// Whether a warning is due after a rate was dropped: on the first one and on every hundredth.
    pub fn drop_is_worth_a_warning(&self) -> (r: bool)
        ensures
            r == (self@.dropped == 1 || self@.dropped % 100 == 0),
    {
        self.dropped == 1 || self.dropped % 100 == 0
    }
}

/// A source stops exactly where nobody takes its books or its attempts are used up, and says which;
/// any other one tries once more, after a delay that lies within a fifth of the plain one.
pub proof fn law_sources_go_on_while_they_may(
    before: Progress,
    end: SessionEnd,
    status: ConnectionStatus,
    after: Progress,
    next: Next,
)
    requires
        1 <= before.base_ms <= before.max_ms <= u64::MAX,
        went_on(before, end, status, after, next),
    ensures
        next is Stop <==> end is ChannelClosed || (before.max_attempts > 0 && before.attempt
            >= before.max_attempts),
        end is ChannelClosed ==> next == Next::Stop(MarketDataError::ChannelClosed),
        next is Stop && !(end is ChannelClosed) ==> next == Next::Stop(
            MarketDataError::ReconnectExhausted { attempts: before.attempt },
        ),
        next is Stop ==> status == ConnectionStatus::Disconnected && after == before,
        next matches Next::Wait(delay) ==> {
            &&& before.attempt < u32::MAX ==> after.attempt == before.attempt + 1
            &&& status == ConnectionStatus::Reconnecting { attempts: after.attempt }
            &&& 5 * delay.nanos >= 4 * before.plain_delay_ms() * 1_000_000
            &&& delay.nanos == 1_000_000 || 5 * delay.nanos <= 6 * before.plain_delay_ms()
                * 1_000_000
        },
{
    crate::backoff::law_delays_grow_to_the_limit(before);
    if let Next::Wait(delay) = next {
        let nanos = choose|nanos: nat|
            delay.nanos == #[trigger] crate::backoff::spread_ms(before.plain_delay_ms(), nanos)
                * 1_000_000;
        crate::backoff::law_delays_are_spread_by_a_fifth(before.plain_delay_ms(), nanos);
    }
}

/// Rates are counted only while somebody takes them: one that went through as such, one without room
/// as dropped; a taker that is gone is forgotten.
pub proof fn law_rates_are_counted_while_taken(channel: ChannelState, result: SendResult)
    ensures
        ({
            let after = after_rate(channel, result);
            &&& !channel.registered ==> after == channel
            &&& channel.registered ==> {
                &&& after.published == if result == SendResult::Sent {
                    channel.published.wrapping_add(1)
                } else {
                    channel.published
                }
                &&& after.dropped == if result == SendResult::Full {
                    channel.dropped.wrapping_add(1)
                } else {
                    channel.dropped
                }
                &&& after.registered <==> result != SendResult::Closed
            }
        }),
{
}

} // verus!

//! Reports on the connections.

use vstd::prelude::*;

use crate::by_dex::ByDex;
use crate::metrics::SourceMetrics;
use crate::status::ConnectionStatus;
use crate::symbol::Dex;

verus! {

/// What is wrong with a source.
#[derive(Clone, Copy, Debug, PartialEq, Eq, Structural)]
pub enum Alarm {
    Nothing,
    /// There is no connection.
    NotConnected,
    /// There is a connection on which nothing comes in: the subscription may have failed.
    Silent,
}

/// What is reported of a source.
#[derive(Clone, Copy, Debug, PartialEq, Eq, Structural)]
pub struct Report {
    /// How many messages came in since the last report.
    pub messages_delta: u64,
    pub alarm: Alarm,
}

/// What is reported of a source of which `before` messages had come in at the last report.
pub open spec fn reported(before: u64, status: ConnectionStatus, metrics: SourceMetrics) -> Report {
    let delta = if metrics.messages_received >= before {
        (metrics.messages_received - before) as u64
    } else {
        0
    };
    Report {
        messages_delta: delta,
        alarm: if !(status is Connected) {
            Alarm::NotConnected
        } else if delta == 0 {
            Alarm::Silent
        } else {
            Alarm::Nothing
        },
    }
}

/// Remembers how many messages had come in at the last report.
pub struct Monitor {
    previous: ByDex<u64>,
}

impl View for Monitor {
    type V = Map<Dex, u64>;

    closed spec fn view(&self) -> Map<Dex, u64> {
        self.previous@
    }
}

impl Monitor {
    /// Nothing has been reported.
    pub fn new() -> (r: Monitor)
        ensures
            r@ == Map::<Dex, u64>::empty(),
    {
        Monitor { previous: ByDex::new() }
    }

    /// The report on a source.
    pub fn report(&mut self, dex: Dex, status: ConnectionStatus, metrics: SourceMetrics) -> (r:
        Report)
        ensures
            final(self)@ == old(self)@.insert(dex, metrics.messages_received),
            r == reported(
                if old(self)@.contains_key(dex) {
                    old(self)@[dex]
                } else {
                    0
                },
                status,
                metrics,
            ),
    {
        let before: u64 = match self.previous.get(dex) {
            Some(n) => *n,
            None => 0,
        };
        self.previous.set(dex, metrics.messages_received);
        let messages_delta: u64 = if metrics.messages_received >= before {
            metrics.messages_received - before
        } else {
            0
        };
        let alarm = if !status.is_connected() {
            Alarm::NotConnected
        } else if messages_delta == 0 {
            Alarm::Silent
        } else {
            Alarm::Nothing
        };
        Report { messages_delta, alarm }
    }
}

/// A report gives the messages that came in since the last one, and an alarm exactly where there is no
/// connection, or one on which nothing came in.
pub proof fn law_reports_tell_what_came_in(
    before: u64,
    status: ConnectionStatus,
    metrics: SourceMetrics,
)
    ensures
        ({
            let report = reported(before, status, metrics);
            let connected = status == ConnectionStatus::Connected;
            &&& metrics.messages_received >= before ==> before + report.messages_delta
                == metrics.messages_received
            &&& metrics.messages_received < before ==> report.messages_delta == 0
            &&& report.alarm == Alarm::NotConnected <==> !connected
            &&& report.alarm == Alarm::Silent <==> connected && metrics.messages_received <= before
            &&& report.alarm == Alarm::Nothing <==> connected && metrics.messages_received > before
        }),
{
}

} // verus!

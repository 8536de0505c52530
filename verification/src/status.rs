//! The state of a connection.

use vstd::prelude::*;

use crate::text;

verus! {

/// The state of a connection.
#[derive(Clone, Copy, Debug, PartialEq, Eq, Structural)]
pub enum ConnectionStatus {
    Connected,
    Reconnecting { attempts: u32 },
    Disconnected,
}

impl ConnectionStatus {
    /// The name of the state.
    pub open spec fn name(self) -> Seq<char> {
        match self {
            ConnectionStatus::Connected => "connected"@,
            ConnectionStatus::Reconnecting { .. } => "reconnecting"@,
            ConnectionStatus::Disconnected => "disconnected"@,
        }
    }

    /// Whether the connection stands.
    pub fn is_connected(&self) -> (r: bool)
        ensures
            r == (*self is Connected),
    {
        matches!(self, ConnectionStatus::Connected)
    }

    /// The name of the state.
    pub fn as_str(&self) -> (r: &'static str)
        ensures
            r@ == self.name(),
    {
        match self {
            ConnectionStatus::Connected => "connected",
            ConnectionStatus::Reconnecting { .. } => "reconnecting",
            ConnectionStatus::Disconnected => "disconnected",
        }
    }

    /// The state in words, the count of attempts among them.
    pub fn describe(&self) -> (r: String)
        ensures
            r@ == match *self {
                ConnectionStatus::Reconnecting { attempts } => "reconnecting(attempts="@
                    + text::digits(attempts as nat) + ")"@,
                _ => self.name(),
            },
    {
        match self {
            ConnectionStatus::Reconnecting { attempts } => {
                let mut out = "reconnecting(attempts=".to_owned();
                out.append(text::number_text(*attempts as u64).as_str());
                out.append(")");
                out
            },
            _ => self.as_str().to_owned(),
        }
    }
}

/// The state of a connection, as it changes.
#[derive(Clone, Copy, Debug, PartialEq, Eq, Structural)]
pub struct ConnectionState {
    status: ConnectionStatus,
}

impl View for ConnectionState {
    type V = ConnectionStatus;

    closed spec fn view(&self) -> ConnectionStatus {
        self.status
    }
}

impl Default for ConnectionState {
    fn default() -> (r: ConnectionState)
        ensures
            r@ == ConnectionStatus::Disconnected,
    {
        ConnectionState { status: ConnectionStatus::Disconnected }
    }
}

impl ConnectionState {
    /// Not connected yet.
    pub fn new() -> (r: ConnectionState)
        ensures
            r@ == ConnectionStatus::Disconnected,
    {
        ConnectionState { status: ConnectionStatus::Disconnected }
    }

    /// Notes that the connection stands.
    pub fn set_connected(&mut self)
        ensures
            final(self)@ == ConnectionStatus::Connected,
    {
        self.status = ConnectionStatus::Connected;
    }

    /// Notes that the connection is being made anew.
    pub fn set_reconnecting(&mut self, attempts: u32)
        ensures
            final(self)@ == (ConnectionStatus::Reconnecting { attempts }),
    {
        self.status = ConnectionStatus::Reconnecting { attempts };
    }

    /// Notes that the connection is gone.
    pub fn set_disconnected(&mut self)
        ensures
            final(self)@ == ConnectionStatus::Disconnected,
    {
        self.status = ConnectionStatus::Disconnected;
    }

    /// The state.
    pub fn get(&self) -> (r: ConnectionStatus)
        ensures
            r == self@,
    {
        self.status
    }
}

} // verus!

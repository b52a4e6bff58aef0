//! The state of the connection.
use vstd::prelude::*;

use super::bss::BSS;
use crate::mac::MACAddress;

verus! {

/// Configuration parameters for the connection. Times are in microseconds.
#[derive(Clone, Copy, Debug, PartialEq, Eq, Structural)]
pub struct ConnectionConfig {
    /// If we're disconnected from the network and this is set to `true`, we attempt to reconnect.
    pub automatic_reconnect: bool,
    /// How often to retry a step in the connection establishment, if no response is received.
    pub handshake_retries: usize,
    /// Maximum time a response can take during a handshake step.
    pub handshake_timeout: u64,
    /// After receiving no beacon from the AP for this duration, we disconnect.
    ///
    /// Set to [None] to disable beacon timeouts.
    pub beacon_timeout: Option<u64>,
}

impl Default for ConnectionConfig {
    fn default() -> (config: Self)
        ensures
            config == (ConnectionConfig {
                automatic_reconnect: true,
                handshake_retries: 4,
                handshake_timeout: 100_000,
                beacon_timeout: Some(3_000_000),
            }),
    {
        ConnectionConfig {
            automatic_reconnect: true,
            handshake_retries: 4,
            handshake_timeout: 100_000,
            beacon_timeout: Some(3_000_000),
        }
    }
}

impl ConnectionConfig {
    /// What there is to do after a disconnection: reconnect, if this is configured and the
    /// disconnection is not what the user asked for.
    pub open spec fn spec_after_disconnection(
        &self,
        reason: DisconnectionReason,
    ) -> ReconnectDecision {
        if self.automatic_reconnect && reason != DisconnectionReason::User {
            ReconnectDecision::Reconnect
        } else {
            ReconnectDecision::Stay
        }
    }

    /// Decide what there is to do after a disconnection.
    pub fn after_disconnection(&self, reason: DisconnectionReason) -> (decision: ReconnectDecision)
        ensures
            decision == self.spec_after_disconnection(reason),
    {
        if !self.automatic_reconnect {
            return ReconnectDecision::Stay;
        }
        match reason {
            DisconnectionReason::User => ReconnectDecision::Stay,
            DisconnectionReason::BeaconTimeout => ReconnectDecision::Reconnect,
            DisconnectionReason::Deauthenticated => ReconnectDecision::Reconnect,
        }
    }
}

/// What there is to do after a disconnection.
#[derive(Clone, Copy, Debug, PartialEq, Eq, Structural)]
pub enum ReconnectDecision {
    /// Attempt to connect to the network again.
    Reconnect,
    /// Stay disconnected.
    Stay,
}

/// Information about the current connection.
#[derive(Debug)]
pub struct ConnectionInfo {
    /// The BSS we're connected to.
    pub bss: BSS,
    /// Our own address.
    pub own_address: MACAddress,
    /// The association ID assigned by the AP.
    pub aid: u16,
    /// Configuration parameters for connection setup and management.
    pub connection_config: ConnectionConfig,
}

/// The reason for a disconnection.
#[derive(Clone, Copy, Debug, PartialEq, Eq, Structural)]
pub enum DisconnectionReason {
    /// The user asked for it.
    User,
    /// No beacon was received for too long.
    BeaconTimeout,
    /// The access point ended the connection.
    Deauthenticated,
}

/// All possible connection states that the STA can be in.
#[derive(Debug)]
pub enum ConnectionState {
    /// There is no connection.
    Disconnected(DisconnectionReason),
    /// There is a connection.
    Connected(ConnectionInfo),
}

/// Tracks the connection state.
pub struct ConnectionStateTracker {
    /// The state.
    pub connection_state: ConnectionState,
    /// Whether the state was set since somebody last looked.
    pub signaled: bool,
}

impl ConnectionStateTracker {
    /// The connection, if there is one.
    pub open spec fn info(&self) -> Option<ConnectionInfo> {
        match self.connection_state {
            ConnectionState::Connected(info) => Some(info),
            ConnectionState::Disconnected(_) => None,
        }
    }

    /// Create a new state tracker.
    pub fn new() -> (tracker: Self)
        ensures
            tracker == (ConnectionStateTracker {
                connection_state: ConnectionState::Disconnected(DisconnectionReason::User),
                signaled: false,
            }),
    {
        Self {
            connection_state: ConnectionState::Disconnected(DisconnectionReason::User),
            signaled: false,
        }
    }

    /// Signal a new state.
    pub fn signal_state(&mut self, new_state: ConnectionState)
        ensures
            *final(self) == (ConnectionStateTracker {
                connection_state: new_state,
                signaled: true,
            }),
    {
        self.connection_state = new_state;
        self.signaled = true;
    }

    /// Take the signal that the state was set.
    pub fn take_signal(&mut self) -> (signaled: bool)
        ensures
            signaled == old(self).signaled,
            *final(self) == (ConnectionStateTracker { signaled: false, ..*old(self) }),
    {
        let signaled = self.signaled;
        self.signaled = false;
        signaled
    }

    /// Get the connection info.
    pub fn connection_info(&self) -> (info: Option<&ConnectionInfo>)
        ensures
            info is Some == self.info() is Some,
            info matches Some(info) ==> Some(*info) == self.info(),
    {
        match &self.connection_state {
            ConnectionState::Connected(info) => Some(info),
            ConnectionState::Disconnected(_) => None,
        }
    }

    /// Get the reason for the last disconnection.
    pub fn disconnection_reason(&self) -> (reason: Option<DisconnectionReason>)
        ensures
            reason == match self.connection_state {
                ConnectionState::Disconnected(reason) => Some(reason),
                ConnectionState::Connected(_) => None,
            },
    {
        match &self.connection_state {
            ConnectionState::Disconnected(reason) => Some(*reason),
            ConnectionState::Connected(_) => None,
        }
    }

    /// Check if the current connection state is [ConnectionState::Connected].
    pub fn connected(&self) -> (connected: bool)
        ensures
            connected == self.info() is Some,
    {
        match &self.connection_state {
            ConnectionState::Connected(_) => true,
            ConnectionState::Disconnected(_) => false,
        }
    }

    /// Get the BSSID and our own address for the current connection.
    pub fn bssid_and_own_address(&self) -> (addresses: Option<(MACAddress, MACAddress)>)
        ensures
            addresses == match self.info() {
                Some(info) => Some((info.bss.bssid, info.own_address)),
                None => None,
            },
    {
        match self.connection_info() {
            Some(info) => Some((info.bss.bssid, info.own_address)),
            None => None,
        }
    }
}

} // verus!

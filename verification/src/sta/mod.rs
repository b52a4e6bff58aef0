//! The station: a client of an infrastructure network.
use vstd::prelude::*;

use crate::lmac::{LMacError, LMacInterfaceControl, SharedLMacState};
use crate::radio::TxPhyRate;
use connection_state::{ConnectionState, ConnectionStateTracker, DisconnectionReason};
use rsn::CryptoState;

pub mod bss;
pub mod connection_laws;
pub mod connection_state;
pub mod control;
pub mod data_laws;
pub mod handshake_probe;
pub mod network_laws;
pub mod operations;
pub mod rekey_laws;
pub mod routing_laws;
pub mod rsn;
pub mod rsn_group;
pub mod rsn_initial;
pub mod rsn_retransmit;
pub mod runner;
pub mod rx_router;

verus! {

/// Errors of the station.
#[derive(Clone, Copy, Debug, PartialEq, Eq, Structural)]
pub enum StaError {
    /// The LMAC returned an error.
    LMacError(LMacError),
    /// No network with the SSID was found.
    UnableToFindEss,
    /// The description of the network is invalid.
    InvalidBss,
    /// A frame was not acknowledged.
    AckTimeout,
    /// It is unknown whether a frame was transmitted.
    TxCompletionLost,
    /// No response arrived in time.
    ResponseTimeout,
    /// A response could not be parsed.
    FrameDeserializationFailed,
    /// Authentication failed, with the given status code.
    AuthenticationFailure(u16),
    /// Association failed, with the given status code.
    AssociationFailure(u16),
    /// A message of the group key handshake could not be protected.
    GroupKeyHandshakeFailure,
    /// All key slots are in use.
    NoKeySlotsAvailable,
    /// The pre shared key has the wrong length.
    InvalidPskLength,
    /// The network requires credentials.
    NoCredentialsForNetwork,
    /// The station is connected to this network already.
    SameNetwork,
    /// The station is not connected.
    NotConnected,
    /// The station is still connected.
    StillConnected,
}

/// What all tasks of the station share.
pub struct StaTxRx {
    /// State of the connection.
    pub connection_state: ConnectionStateTracker,
    /// Keys of the connection, if it is protected.
    pub crypto_state: Option<CryptoState>,
    /// The transmission rate.
    pub phy_rate: TxPhyRate,
    /// Control over the interface.
    pub interface_control: LMacInterfaceControl,
}

/// The transmission rate that is used unless another one was set.
pub open spec fn default_phy_rate() -> TxPhyRate {
    TxPhyRate::Ofdm(6)
}

impl StaTxRx {
    /// The interface exists, and keys are well formed.
    pub open spec fn wf(&self) -> bool {
        &&& self.interface_control.wf()
        &&& self.crypto_state matches Some(state) ==> state.wf()
    }

    /// Start without connection.
    pub fn new(interface_control: LMacInterfaceControl) -> (sta_tx_rx: Self)
        ensures
            sta_tx_rx.interface_control == interface_control,
            sta_tx_rx.connection_state == (ConnectionStateTracker {
                connection_state: ConnectionState::Disconnected(DisconnectionReason::User),
                signaled: false,
            }),
            sta_tx_rx.crypto_state is None,
            sta_tx_rx.phy_rate == default_phy_rate(),
    {
        Self {
            connection_state: ConnectionStateTracker::new(),
            crypto_state: None,
            phy_rate: TxPhyRate::Ofdm(6),
            interface_control,
        }
    }

    /// Whether this interface performs an off channel operation.
    pub open spec fn spec_in_off_channel_operation(&self, state: SharedLMacState) -> bool {
        state.channel_state.off_channel_operation_interface == Some(
            self.interface_control.interface,
        )
    }

    /// Check whether this interface performs an off channel operation.
    pub fn in_off_channel_operation(&self, state: &SharedLMacState) -> (in_operation: bool)
        ensures
            in_operation == self.spec_in_off_channel_operation(*state),
    {
        match self.interface_control.off_channel_operation_interface(state) {
            Some(interface) => interface == self.interface_control.interface,
            None => false,
        }
    }

    /// Check whether the connection is protected.
    pub fn rsna_activated(&self) -> (activated: bool)
        ensures
            activated == self.crypto_state is Some,
    {
        self.crypto_state.is_some()
    }

    /// Go back to the default transmission rate.
    pub fn reset_phy_rate(&mut self)
        ensures
            *final(self) == (StaTxRx { phy_rate: default_phy_rate(), ..*old(self) }),
    {
        self.phy_rate = TxPhyRate::Ofdm(6);
    }
}

} // verus!

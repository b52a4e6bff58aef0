//! Control over the station.
use vstd::prelude::*;

use crate::bytes::{overwrite, to_array};
use crate::lmac::SharedLMacState;
use crate::mac::{mac_address_extensional, MACAddress};
use crate::radio::{TxMacParameters, TxPhyRate, TxPlcpParameters};
use crate::sta::bss::{Credentials, SecurityConfig, BSS};
use crate::sta::connection_state::{
    ConnectionConfig, ConnectionInfo, ConnectionState, DisconnectionReason,
};
use crate::sta::operations::handshake::{
    protected_key_frame_sent, send_group_request, EAPOL_BUFFER_LENGTH, GROUP_REQUEST_INFORMATION,
};
use crate::sta::rsn::{partition_ptk, ptk_parts, CryptoState};
use crate::sta::{default_phy_rate, StaError, StaTxRx};
use crate::tx_queue::RetryBehaviour;
use crate::util::operations::deauth::{deauthenticate, deauthentication_frame, Transmission};
use crate::util::random_mac_address;

verus! {

broadcast use mac_address_extensional;

/// This provides control over the station.
pub struct StaControl {
    /// The MAC address that is used to connect.
    pub mac_address: MACAddress,
}

/// How a station leaves its network.
pub open spec fn leaving_transmission(rate: TxPhyRate) -> Transmission {
    Transmission {
        length: 26,
        plcp_parameters: TxPlcpParameters { rate },
        mac_parameters: TxMacParameters {
            key_slot_index: None,
            wait_for_ack: true,
            override_seq_num: true,
        },
        retry_behaviour: RetryBehaviour::RetryUntil(7),
    }
}

/// What a request to connect leads to at first.
pub enum ConnectDecision {
    /// The connection can be established.
    Proceed,
    /// The deauthentication frame in the buffer has to be sent first.
    LeaveFirst(Transmission),
}

/// What a request to connect leads to at first: the network we are connected to is left, unless it is
/// the same one or there are no credentials.
pub open spec fn connect_decided(
    before: StaTxRx,
    after: StaTxRx,
    bss: BSS,
    credentials: Option<Credentials<'_>>,
    buffer: Seq<u8>,
    buffer_after: Seq<u8>,
    result: Result<ConnectDecision, StaError>,
) -> bool {
    if bss.security_config != SecurityConfig::Open && credentials is None {
        &&& result matches Err(error) && error == StaError::NoCredentialsForNetwork
        &&& after == before
        &&& buffer_after == buffer
    } else {
        match before.connection_state.info() {
            Some(info) if info.bss.bssid == bss.bssid => {
                &&& result matches Err(error) && error == StaError::SameNetwork
                &&& after == before
                &&& buffer_after == buffer
            },
            Some(info) => {
                &&& result matches Ok(ConnectDecision::LeaveFirst(transmission))
                &&& transmission == leaving_transmission(default_phy_rate())
                &&& buffer_after == overwrite(
                    buffer,
                    0,
                    deauthentication_frame(info.bss.bssid@, info.own_address@, true),
                )
                &&& after.has_left(before)
            },
            None => {
                &&& result matches Ok(ConnectDecision::Proceed)
                &&& buffer_after == buffer
                &&& after == (StaTxRx {
                    phy_rate: default_phy_rate(),
                    ..before
                })
            },
        }
    }
}

/// What a connection that was established leads to: it is signaled, with the configuration that was
/// asked for or the default one.
pub open spec fn connection_noted(
    before: StaTxRx,
    after: StaTxRx,
    bss: BSS,
    own_address: MACAddress,
    connection_config: Option<ConnectionConfig>,
    aid: u16,
) -> bool {
    &&& after.connection_state.connection_state == ConnectionState::Connected(
        ConnectionInfo {
            bss,
            own_address,
            aid,
            connection_config: match connection_config {
                Some(config) => config,
                None => ConnectionConfig {
                    automatic_reconnect: true,
                    handshake_retries: 4,
                    handshake_timeout: 100_000,
                    beacon_timeout: Some(3_000_000),
                },
            },
        },
    )
    &&& after.connection_state.signaled
    &&& after == (StaTxRx { connection_state: after.connection_state, ..before })
}

/// What a request to disconnect leads to: the network is told, and the channel is unlocked.
pub open spec fn network_left(
    before: StaTxRx,
    after: StaTxRx,
    state: SharedLMacState,
    state_after: SharedLMacState,
    buffer: Seq<u8>,
    buffer_after: Seq<u8>,
    result: Result<Transmission, StaError>,
) -> bool {
    match before.connection_state.info() {
        None => {
            &&& result == Err::<Transmission, StaError>(StaError::NotConnected)
            &&& after == before
            &&& state_after == state
            &&& buffer_after == buffer
        },
        Some(info) => {
            &&& result == Ok::<Transmission, StaError>(
                leaving_transmission(default_phy_rate()),
            )
            &&& buffer_after == overwrite(
                buffer,
                0,
                deauthentication_frame(info.bss.bssid@, info.own_address@, true),
            )
            &&& after.has_left(before)
            &&& state_after.channel_state.is_after_unlock(
                state.channel_state,
                before.interface_control.interface,
            )
            &&& state_after.key_slot_manager == state.key_slot_manager
        },
    }
}

/// What a request for a group key leads to.
pub open spec fn group_key_requested(
    before: StaTxRx,
    after: StaTxRx,
    buffer: Seq<u8>,
    result: Result<Transmission, StaError>,
) -> bool {
    match (before.connection_state.info(), before.crypto_state) {
        (None, _) => {
            &&& result == Err::<Transmission, StaError>(StaError::NotConnected)
            &&& after == before
        },
        (Some(info), Some(state)) if can_request_group_key(state) => {
            let counted = StaTxRx {
                crypto_state: Some(
                    CryptoState {
                        group_request_counter: (state.group_request_counter + 1) as u64,
                        ..state
                    },
                ),
                ..before
            };
            protected_key_frame_sent(
                counted,
                after,
                buffer,
                info.bss.bssid@,
                info.own_address@,
                confirmation_key(state),
                GROUP_REQUEST_INFORMATION,
                state.group_request_counter,
                result,
            )
        },
        _ => {
            &&& result == Err::<Transmission, StaError>(StaError::GroupKeyHandshakeFailure)
            &&& after == before
        },
    }
}

impl StaControl {
    /// Set the MAC address of the station.
    pub fn set_mac_address(&mut self, sta_tx_rx: &StaTxRx, mac_address: [u8; 6]) -> (result: Result<
        (),
        StaError,
    >)
        ensures
            result == if sta_tx_rx.connection_state.info() is Some {
                Err(StaError::StillConnected)
            } else {
                Ok(())
            },
            *final(self) == if result is Ok {
                StaControl { mac_address: MACAddress(mac_address) }
            } else {
                *old(self)
            },
    {
        if sta_tx_rx.connection_state.connected() {
            Err(StaError::StillConnected)
        } else {
            self.mac_address = MACAddress(mac_address);
            Ok(())
        }
    }

    /// Randomize the MAC address, with the given random bytes.
    ///
    /// This will also return the MAC address.
    pub fn randomize_mac_address(&mut self, sta_tx_rx: &StaTxRx, random: [u8; 6]) -> (result: Result<
        [u8; 6],
        StaError,
    >)
        ensures
            result is Err == sta_tx_rx.connection_state.info() is Some,
            result matches Err(error) ==> error == StaError::StillConnected && *final(self) == *old(
                self,
            ),
            result matches Ok(address) ==> {
                &&& address@ == random@.update(0, (random@[0] & !1) | 2)
                &&& final(self).mac_address == MACAddress(address)
            },
    {
        let mac_address = random_mac_address(random);
        match self.set_mac_address(sta_tx_rx, mac_address) {
            Ok(()) => Ok(mac_address),
            Err(error) => Err(error),
        }
    }

    /// Check whether a connection to a network can be established, and leave the network we are
    /// connected to.
    ///
    /// If we're already connected to a network, this will disconnect from that network, before
    /// establishing a connection to the new network.
    pub fn begin_connect(
        &mut self,
        sta_tx_rx: &mut StaTxRx,
        bss: &BSS,
        credentials: &Option<Credentials<'_>>,
        buffer: &mut [u8],
    ) -> (result: Result<ConnectDecision, StaError>)
        requires
            old(buffer)@.len() >= 26,
        ensures
            *final(self) == *old(self),
            connect_decided(
                *old(sta_tx_rx),
                *final(sta_tx_rx),
                *bss,
                *credentials,
                old(buffer)@,
                final(buffer)@,
                result,
            ),
    {
        if bss.security_config != SecurityConfig::Open && credentials.is_none() {
            return Err(StaError::NoCredentialsForNetwork);
        }
        let current = match sta_tx_rx.connection_state.bssid_and_own_address() {
            Some(addresses) => addresses,
            None => {
                sta_tx_rx.reset_phy_rate();
                return Ok(ConnectDecision::Proceed);
            },
        };
        if current.0 == bss.bssid {
            return Err(StaError::SameNetwork);
        }
        let transmission = disconnect_internal(sta_tx_rx, current.0, current.1, buffer);
        sta_tx_rx.reset_phy_rate();
        Ok(ConnectDecision::LeaveFirst(transmission))
    }

    /// Take note of a connection that was established.
    pub fn finish_connect(
        &mut self,
        sta_tx_rx: &mut StaTxRx,
        bss: BSS,
        connection_config: Option<ConnectionConfig>,
        aid: u16,
    )
        ensures
            *final(self) == *old(self),
            connection_noted(
                *old(sta_tx_rx),
                *final(sta_tx_rx),
                bss,
                old(self).mac_address,
                connection_config,
                aid,
            ),
    {
        let connection_config = match connection_config {
            Some(config) => config,
            None => ConnectionConfig::default(),
        };
        let own_address = self.mac_address;
        sta_tx_rx.connection_state.signal_state(
            ConnectionState::Connected(
                ConnectionInfo { bss, own_address, aid, connection_config },
            ),
        );
    }

    /// Disconnect from the current network: unlock the channel, and write the frame that says so.
    pub fn disconnect(
        &mut self,
        sta_tx_rx: &mut StaTxRx,
        state: &mut SharedLMacState,
        buffer: &mut [u8],
    ) -> (result: Result<Transmission, StaError>)
        requires
            old(sta_tx_rx).interface_control.wf(),
            old(state).channel_state.wf(),
            old(buffer)@.len() >= 26,
        ensures
            *final(self) == *old(self),
            final(state).channel_state.wf(),
            network_left(
                *old(sta_tx_rx),
                *final(sta_tx_rx),
                *old(state),
                *final(state),
                old(buffer)@,
                final(buffer)@,
                result,
            ),
    {
        let (bssid, own_address) = match sta_tx_rx.connection_state.bssid_and_own_address() {
            Some(addresses) => addresses,
            None => {
                return Err(StaError::NotConnected);
            },
        };
        sta_tx_rx.interface_control.unlock_channel(state);
        Ok(disconnect_internal(sta_tx_rx, bssid, own_address, buffer))
    }

    /// Ask the current access point to rotate its group key.
    ///
    /// This can rotate the key for every station of the network, and is never done by normal
    /// connection handling. That the request was sent does not mean that the key is rotated.
    pub fn request_group_rekey(&mut self, sta_tx_rx: &mut StaTxRx, buffer: &mut [u8]) -> (result:
        Result<Transmission, StaError>)
        requires
            old(buffer)@.len() >= EAPOL_BUFFER_LENGTH + 24,
        ensures
            *final(self) == *old(self),
            final(buffer)@.len() == old(buffer)@.len(),
            group_key_requested(*old(sta_tx_rx), *final(sta_tx_rx), final(buffer)@, result),
    {
        let (bssid, own_address) = match sta_tx_rx.connection_state.bssid_and_own_address() {
            Some(addresses) => addresses,
            None => {
                return Err(StaError::NotConnected);
            },
        };
        let (kck, counter) = match &mut sta_tx_rx.crypto_state {
            Some(state) => {
                let kck = match partition_ptk(
                    &state.security_associations.ptksa.key,
                    state.security_associations.akm_suite,
                    state.security_associations.cipher_suite,
                ) {
                    Some((kck, _, _)) => {
                        if kck.len() != 16 {
                            return Err(StaError::GroupKeyHandshakeFailure);
                        }
                        to_array::<16>(kck)
                    },
                    None => {
                        return Err(StaError::GroupKeyHandshakeFailure);
                    },
                };
                let counter: u64 = state.group_request_counter;
                if counter == u64::MAX {
                    return Err(StaError::GroupKeyHandshakeFailure);
                }
                state.group_request_counter = counter + 1;
                (kck, counter)
            },
            None => {
                return Err(StaError::GroupKeyHandshakeFailure);
            },
        };
        send_group_request(sta_tx_rx, buffer, bssid, own_address, &kck, counter)
    }

    /// Check if we're currently connected to a network.
    pub fn connected(&self, sta_tx_rx: &StaTxRx) -> (connected: bool)
        ensures
            connected == sta_tx_rx.connection_state.info() is Some,
    {
        sta_tx_rx.connection_state.connected()
    }

    /// Get the association ID of the current connection.
    pub fn get_aid(&self, sta_tx_rx: &StaTxRx) -> (aid: Option<u16>)
        ensures
            aid == match sta_tx_rx.connection_state.info() {
                Some(info) => Some(info.aid),
                None => None,
            },
    {
        match sta_tx_rx.connection_state.connection_info() {
            Some(info) => Some(info.aid),
            None => None,
        }
    }

    /// Get the currently used rate.
    pub fn phy_rate(&self, sta_tx_rx: &StaTxRx) -> (rate: TxPhyRate)
        ensures
            rate == sta_tx_rx.phy_rate,
    {
        sta_tx_rx.phy_rate
    }

    /// Override the rate.
    pub fn override_phy_rate(&self, sta_tx_rx: &mut StaTxRx, phy_rate: TxPhyRate)
        ensures
            *final(sta_tx_rx) == (StaTxRx { phy_rate, ..*old(sta_tx_rx) }),
    {
        sta_tx_rx.phy_rate = phy_rate;
    }
}

impl StaTxRx {
    /// Whether this is `before` after the user left the network.
    pub open spec fn has_left(&self, before: StaTxRx) -> bool {
        &&& self.connection_state.connection_state == ConnectionState::Disconnected(
            DisconnectionReason::User,
        )
        &&& self.connection_state.signaled
        &&& self.phy_rate == default_phy_rate()
        &&& self.crypto_state == before.crypto_state
        &&& self.interface_control == before.interface_control
    }
}

/// The confirmation key of a connection.
pub open spec fn confirmation_key(state: CryptoState) -> Seq<u8> {
    ptk_parts(
        state.security_associations.ptksa.key@,
        state.security_associations.akm_suite,
        state.security_associations.cipher_suite,
    )->Some_0.0
}

/// Whether a group key can be requested: the pairwise key has a confirmation key of sixteen bytes,
/// and request counters have not run out.
pub open spec fn can_request_group_key(state: CryptoState) -> bool {
    &&& ptk_parts(
        state.security_associations.ptksa.key@,
        state.security_associations.akm_suite,
        state.security_associations.cipher_suite,
    ) matches Some(parts) && parts.0.len() == 16
    &&& state.group_request_counter < u64::MAX
}

/// Leave the network.
///
/// The channel is already unlocked here, but since nothing waits between unlocking the channel and
/// transmitting the deauthentication frame, no other interface could lock it meanwhile.
fn disconnect_internal(
    sta_tx_rx: &mut StaTxRx,
    bssid: MACAddress,
    own_address: MACAddress,
    buffer: &mut [u8],
) -> (transmission: Transmission)
    requires
        old(buffer)@.len() >= 26,
    ensures
        transmission == leaving_transmission(default_phy_rate()),
        final(buffer)@ == overwrite(
            old(buffer)@,
            0,
            deauthentication_frame(bssid@, own_address@, true),
        ),
        final(sta_tx_rx).has_left(*old(sta_tx_rx)),
{
    sta_tx_rx.connection_state.signal_state(
        ConnectionState::Disconnected(DisconnectionReason::User),
    );
    sta_tx_rx.reset_phy_rate();
    deauthenticate(buffer, bssid, own_address, true, sta_tx_rx.phy_rate)
}

} // verus!

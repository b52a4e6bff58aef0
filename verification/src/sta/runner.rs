//! The background task of the station.
//!
//! Waiting for frames, for the radio and for the network stack is up to the caller. What a frame
//! means and what is to be done is decided here.
use vstd::prelude::*;

use crate::bytes::{be_value, lemma_be_bytes_length, overwrite, read_le16, to_array};
use crate::eapol::{
    authentic_key_data, eapol_frame, envelope, envelope_offset, key_information, replay_counter,
    with_plain_key_data,
};
use crate::frame::{
    body_offset, carries_eapol, check_crypto_header, crypto_header_readable, data_header_length,
    destination_of, first_subframe, frame_subtype, frame_type, has_flag, has_subframe, is_amsdu,
    is_data_frame, is_eapol_key_frame, lemma_header_addresses, open_body, source_of,
    parse_data_frame, parse_generic, subframe_length, subframe_span, subtype_has_payload,
    wire_packet_number, DataBody, FLAG_PROTECTED, MAX_PN,
};
use crate::lmac::crypto::{KeyCommand, KeySlotManager};
use crate::lmac::SharedLMacState;
use crate::mac::{mac_address_extensional, MACAddress};
use crate::mgmt::{is_beacon, is_deauthentication, parse_beacon, parse_deauthentication};
use crate::msdu::{
    ethernet_frame, is_snap, parse_ethernet, parse_llc, plain_msdu_frame, protected_msdu_frame,
    serialize_ethernet, serialize_plain_msdu, serialize_protected_msdu,
};
use crate::radio::{RxFilterBank, RxInterface, TxMacParameters, TxPhyRate, TxPlcpParameters};
use crate::sta::connection_state::{
    ConnectionConfig, ConnectionState, DisconnectionReason, ReconnectDecision,
};
use crate::sta::operations::handshake::{
    eapol_transmission, message_4_fields, protected_key_frame_sent, send_group_message_2,
    send_message_4, EAPOL_BUFFER_LENGTH, GROUP_MESSAGE_2_INFORMATION,
};
use crate::sta::rsn::{
    partition_ptk, ptk_parts, CryptoState, SecurityAssociations, TransientKeySecurityAssociation,
    KEY_ID_COUNT,
};
use crate::sta::rsn_group::{
    decode_group_message_1, is_downlink, is_group_message_1, is_key_frame, normalizable,
    normalize, normalized, spec_is_key_frame, GroupMessage1,
};
use crate::sta::rsn_retransmit::{
    carries_group_key, is_message_3, is_message_3_retry, Message3Replay,
};
use crate::sta::rx_router::StaRxRouter;
use crate::sta::{default_phy_rate, StaError, StaTxRx};
use crate::tx_queue::RetryBehaviour;
use crate::util::operations::deauth::{deauthenticate, deauthentication_frame, Transmission};
use crate::util::rx_router::{RxRouterQueue, RxRouterRoutingError};

verus! {

broadcast use mac_address_extensional;

/// An event of the connection.
#[derive(Clone, Copy, Debug, PartialEq, Eq, Structural)]
pub enum ConnectionRxEvent {
    /// The connection has ended.
    Disconnected(DisconnectionReason),
    /// A beacon was received.
    BeaconReceived,
}

/// Handle a deauthentication frame.
///
/// Currently this immediately leads to disconnection, whatever the reason.
pub fn handle_deauth(reason: u16) -> (event: ConnectionRxEvent)
    ensures
        event == ConnectionRxEvent::Disconnected(DisconnectionReason::Deauthenticated),
{
    ConnectionRxEvent::Disconnected(DisconnectionReason::Deauthenticated)
}

/// What a frame on the background queue means.
pub open spec fn bg_rx_event(frame: Seq<u8>) -> Option<ConnectionRxEvent> {
    if is_deauthentication(frame) {
        Some(ConnectionRxEvent::Disconnected(DisconnectionReason::Deauthenticated))
    } else if is_beacon(frame) {
        Some(ConnectionRxEvent::BeaconReceived)
    } else {
        None
    }
}

/// Handle a frame arriving on the background queue, during a connection.
pub fn handle_bg_rx(frame: &[u8]) -> (event: Option<ConnectionRxEvent>)
    ensures
        event == bg_rx_event(frame@),
{
    if let Some(reason) = parse_deauthentication(frame) {
        return Some(handle_deauth(reason));
    }
    if parse_beacon(frame).is_some() {
        return Some(ConnectionRxEvent::BeaconReceived);
    }
    None
}

/// Watches over a connection. Times are in microseconds.
pub struct ConnectionWatch {
    /// How long beacons may fail to arrive.
    pub beacon_timeout: Option<u64>,
    /// When the connection is given up.
    pub deadline: Option<u64>,
}

/// What has to be done for a connection.
#[derive(Clone, Copy, Debug, PartialEq, Eq, Structural)]
pub enum ConnectionAction {
    /// Go on.
    Continue,
    /// End the connection.
    Disconnect(DisconnectionReason),
    /// Send the deauthentication frame in the buffer and end the connection.
    Deauthenticate(Transmission, DisconnectionReason),
}

impl ConnectionWatch {
    /// When beacons have failed to arrive for too long, if none arrives from `now` on.
    pub open spec fn deadline_from(beacon_timeout: Option<u64>, now: u64) -> Option<u64> {
        match beacon_timeout {
            Some(timeout) => Some((now + timeout) as u64),
            None => None,
        }
    }

    /// What a frame on the background queue leads to. A beacon puts off the deadline, and a
    /// deauthentication frame ends the connection.
    pub open spec fn is_after_received(
        &self,
        before: ConnectionWatch,
        frame: Seq<u8>,
        now: u64,
        action: ConnectionAction,
    ) -> bool {
        &&& self.beacon_timeout == before.beacon_timeout
        &&& action == match bg_rx_event(frame) {
            Some(ConnectionRxEvent::Disconnected(reason)) => ConnectionAction::Disconnect(reason),
            _ => ConnectionAction::Continue,
        }
        &&& self.deadline == if bg_rx_event(frame) == Some(ConnectionRxEvent::BeaconReceived) {
            Self::deadline_from(before.beacon_timeout, now)
        } else {
            before.deadline
        }
    }

    /// What a look at the clock leads to. Once the deadline has passed, the connection is given up.
    pub open spec fn is_checked(
        &self,
        now: u64,
        before: Seq<u8>,
        after: Seq<u8>,
        bssid: Seq<u8>,
        own: Seq<u8>,
        action: ConnectionAction,
    ) -> bool {
        match self.deadline {
            Some(deadline) if deadline <= now => {
                &&& action == ConnectionAction::Deauthenticate(
                    Transmission {
                        length: 26,
                        plcp_parameters: TxPlcpParameters { rate: TxPhyRate::Ofdm(6) },
                        mac_parameters: TxMacParameters {
                            key_slot_index: None,
                            wait_for_ack: true,
                            override_seq_num: true,
                        },
                        retry_behaviour: RetryBehaviour::RetryUntil(7),
                    },
                    DisconnectionReason::BeaconTimeout,
                )
                &&& after == overwrite(before, 0, deauthentication_frame(bssid, own, true))
            },
            _ => action == ConnectionAction::Continue && after == before,
        }
    }

    /// Start to watch over a connection.
    pub fn start(config: &ConnectionConfig, now: u64) -> (watch: Self)
        requires
            config.beacon_timeout matches Some(timeout) ==> now + timeout <= u64::MAX,
        ensures
            watch == (ConnectionWatch {
                beacon_timeout: config.beacon_timeout,
                deadline: Self::deadline_from(config.beacon_timeout, now),
            }),
    {
        let deadline = match config.beacon_timeout {
            Some(timeout) => Some(now + timeout),
            None => None,
        };
        ConnectionWatch { beacon_timeout: config.beacon_timeout, deadline }
    }

    /// A frame has arrived on the background queue. A beacon puts off the deadline.
    pub fn received(&mut self, frame: &[u8], now: u64) -> (action: ConnectionAction)
        requires
            old(self).beacon_timeout matches Some(timeout) ==> now + timeout <= u64::MAX,
        ensures
            final(self).is_after_received(*old(self), frame@, now, action),
    {
        match handle_bg_rx(frame) {
            Some(ConnectionRxEvent::Disconnected(reason)) => ConnectionAction::Disconnect(reason),
            Some(ConnectionRxEvent::BeaconReceived) => {
                self.deadline = match self.beacon_timeout {
                    Some(timeout) => Some(now + timeout),
                    None => None,
                };
                ConnectionAction::Continue
            },
            None => ConnectionAction::Continue,
        }
    }

    /// Look at the clock. Once the deadline has passed, the connection is given up.
    ///
    /// Since the network can either not or barely hear us, the lowest rate is used for the
    /// deauthentication frame.
    pub fn check_deadline(
        &self,
        now: u64,
        buffer: &mut [u8],
        bssid: MACAddress,
        own_address: MACAddress,
    ) -> (action: ConnectionAction)
        requires
            old(buffer)@.len() >= 26,
        ensures
            self.is_checked(now, old(buffer)@, final(buffer)@, bssid@, own_address@, action),
    {
        match self.deadline {
            Some(deadline) => {
                if deadline <= now {
                    let transmission = deauthenticate(
                        buffer,
                        bssid,
                        own_address,
                        true,
                        TxPhyRate::Ofdm(6),
                    );
                    return ConnectionAction::Deauthenticate(
                        transmission,
                        DisconnectionReason::BeaconTimeout,
                    );
                }
                ConnectionAction::Continue
            },
            None => ConnectionAction::Continue,
        }
    }
}

/// What the end of a connection leads to: the channel is unlocked, frames of the network are not
/// received any longer, and the reason is known.
pub open spec fn connection_is_over(
    before: (StaTxRx, SharedLMacState, RxInterface),
    after: (StaTxRx, SharedLMacState, RxInterface),
    config: ConnectionConfig,
    reason: DisconnectionReason,
    decision: ReconnectDecision,
) -> bool {
    &&& after.1.channel_state.is_after_unlock(
        before.1.channel_state,
        before.0.interface_control.interface,
    )
    &&& after.1.key_slot_manager == before.1.key_slot_manager
    &&& after.2 == (RxInterface { bssid_filter: None, ..before.2 })
    &&& after.0.connection_state.connection_state == ConnectionState::Disconnected(reason)
    &&& after.0.connection_state.signaled
    &&& after.0.phy_rate == default_phy_rate()
    &&& after.0.crypto_state == before.0.crypto_state
    &&& after.0.interface_control == before.0.interface_control
    &&& decision == config.spec_after_disconnection(reason)
}

/// Reset all connection specific parameters, after a connection has ended, and decide whether to
/// attempt to reconnect.
pub fn connection_ended(
    sta_tx_rx: &mut StaTxRx,
    state: &mut SharedLMacState,
    rx_interface: &mut RxInterface,
    config: &ConnectionConfig,
    reason: DisconnectionReason,
) -> (decision: ReconnectDecision)
    requires
        old(sta_tx_rx).interface_control.wf(),
        old(state).channel_state.wf(),
    ensures
        final(state).channel_state.wf(),
        connection_is_over(
            (*old(sta_tx_rx), *old(state), *old(rx_interface)),
            (*final(sta_tx_rx), *final(state), *final(rx_interface)),
            *config,
            reason,
            decision,
        ),
{
    sta_tx_rx.interface_control.unlock_channel(state);
    sta_tx_rx.reset_phy_rate();
    rx_interface.clear_filter(RxFilterBank::Bssid);
    sta_tx_rx.connection_state.signal_state(ConnectionState::Disconnected(reason));
    config.after_disconnection(reason)
}

/// How many bytes a data frame needs for an MSDU with a payload of the given length.
pub open spec fn msdu_frame_length(payload: nat, protected: bool) -> nat {
    if protected {
        payload + 48
    } else {
        payload + 32
    }
}

/// What transmitting an Ethernet frame leads to: a data frame in the buffer, if the Ethernet frame
/// has a payload and the data frame fits.
pub open spec fn msdu_encoded(
    sta_tx_rx: StaTxRx,
    sta_tx_rx_after: StaTxRx,
    msdu: Seq<u8>,
    before: Seq<u8>,
    after: Seq<u8>,
    bssid: Seq<u8>,
    own: Seq<u8>,
    transmission: Option<Transmission>,
) -> bool {
    let protected = sta_tx_rx.crypto_state is Some;
    let destination = msdu.subrange(0, 6);
    let ether_type = be_value(msdu.subrange(12, 14));
    let payload = msdu.subrange(14, msdu.len() as int);
    let length = msdu_frame_length(payload.len(), protected);
    &&& if msdu.len() > 14 && protected {
        sta_tx_rx_after.takes_packet_number(sta_tx_rx)
    } else {
        sta_tx_rx_after == sta_tx_rx
    }
    &&& if msdu.len() > 14 && length <= before.len() {
        &&& transmission == Some(
            Transmission {
                length: length as usize,
                plcp_parameters: TxPlcpParameters { rate: sta_tx_rx.phy_rate },
                mac_parameters: TxMacParameters {
                    key_slot_index: match sta_tx_rx.crypto_state {
                        Some(state) => Some(state.ptk_key_slot.key_slot),
                        None => None,
                    },
                    wait_for_ack: true,
                    override_seq_num: false,
                },
                retry_behaviour: RetryBehaviour::RetryUntil(7),
            },
        )
        &&& after == overwrite(
            before,
            0,
            match sta_tx_rx.crypto_state {
                Some(state) => protected_msdu_frame(
                    bssid,
                    own,
                    destination,
                    ether_type,
                    payload,
                    state.security_associations.ptksa.packet_number,
                    state.security_associations.ptksa.key_id,
                ),
                None => plain_msdu_frame(bssid, own, destination, ether_type, payload),
            },
        )
    } else {
        transmission is None && after == before
    }
}

/// Handle the transmission of an MSDU, which the network stack hands over as an Ethernet frame.
///
/// On a protected connection this takes a packet number, even if the frame does not fit.
pub fn encode_msdu(
    sta_tx_rx: &mut StaTxRx,
    msdu: &[u8],
    buffer: &mut [u8],
    bssid: MACAddress,
    own_address: MACAddress,
) -> (transmission: Option<Transmission>)
    requires
        old(sta_tx_rx).crypto_state matches Some(state) ==> {
            ||| state.security_associations.ptksa.packet_number <= MAX_PN
            ||| state.security_associations.ptksa.key_id <= 3
        },
    ensures
        msdu_encoded(
            *old(sta_tx_rx),
            *final(sta_tx_rx),
            msdu@,
            old(buffer)@,
            final(buffer)@,
            bssid@,
            own_address@,
            transmission,
        ),
{
    let frame = match parse_ethernet(msdu) {
        Some(frame) => frame,
        None => {
            return None;
        },
    };
    let capacity: usize = buffer.len();
    let rate = sta_tx_rx.phy_rate;
    let tx_crypto_info = match &mut sta_tx_rx.crypto_state {
        Some(state) => Some(
            (
                state.security_associations.ptksa.next_packet_number(),
                state.security_associations.ptksa.key_id,
                state.ptk_key_slot.key_slot,
            ),
        ),
        None => None,
    };
    assert(old(sta_tx_rx).crypto_state is Some ==> sta_tx_rx.takes_packet_number(*old(sta_tx_rx)));
    let (length, key_slot_index) = match tx_crypto_info {
        Some((packet_number, key_id, key_slot)) => {
            if capacity < 48 || frame.payload.len() > capacity - 48 {
                return None;
            }
            (
                serialize_protected_msdu(
                    bssid,
                    own_address,
                    frame.dst,
                    frame.ether_type,
                    &frame.payload,
                    packet_number,
                    key_id,
                    buffer,
                ),
                Some(key_slot),
            )
        },
        None => {
            if capacity < 32 || frame.payload.len() > capacity - 32 {
                return None;
            }
            (
                serialize_plain_msdu(
                    bssid,
                    own_address,
                    frame.dst,
                    frame.ether_type,
                    &frame.payload,
                    buffer,
                ),
                None,
            )
        },
    };
    Some(
        Transmission {
            length,
            plcp_parameters: TxPlcpParameters { rate },
            mac_parameters: TxMacParameters {
                key_slot_index,
                wait_for_ack: true,
                override_seq_num: false,
            },
            retry_behaviour: RetryBehaviour::RetryUntil(7),
        },
    )
}

/// The association that a received frame is protected by.
pub open spec fn replay_counter_of(state: CryptoState, is_group: bool, key_id: u8) -> Option<u64> {
    if is_group {
        if key_id < KEY_ID_COUNT {
            match state.security_associations.group_keys@[key_id as int] {
                Some(key) => Some(key.replay_counter),
                None => None,
            }
        } else {
            None
        }
    } else {
        Some(state.security_associations.ptksa.replay_counter)
    }
}

/// Whether a packet number is fresh: there is a key, and its replay counter is smaller.
pub open spec fn is_fresh(sta_tx_rx: StaTxRx, is_group: bool, key_id: u8, packet_number: u64)
    -> bool {
    sta_tx_rx.crypto_state matches Some(state) && replay_counter_of(state, is_group, key_id)
        matches Some(counter) && packet_number > counter
}

/// Whether `after` is `before` with the replay counter of one association set to `packet_number`.
pub open spec fn counter_advanced(
    before: StaTxRx,
    after: StaTxRx,
    is_group: bool,
    key_id: u8,
    packet_number: u64,
) -> bool {
    match (before.crypto_state, after.crypto_state) {
        (Some(old_state), Some(new_state)) => {
            let old_keys = old_state.security_associations;
            let new_keys = new_state.security_associations;
            &&& after == (StaTxRx { crypto_state: Some(new_state), ..before })
            &&& new_state == (CryptoState { security_associations: new_keys, ..old_state })
            &&& if is_group {
                &&& new_keys == (SecurityAssociations {
                    group_keys: new_keys.group_keys,
                    ..old_keys
                })
                &&& new_keys.group_keys@ == old_keys.group_keys@.update(
                    key_id as int,
                    Some(
                        TransientKeySecurityAssociation {
                            replay_counter: packet_number,
                            ..old_keys.group_keys@[key_id as int]->Some_0
                        },
                    ),
                )
            } else {
                new_keys == (SecurityAssociations {
                    ptksa: TransientKeySecurityAssociation {
                        replay_counter: packet_number,
                        ..old_keys.ptksa
                    },
                    ..old_keys
                })
            }
        },
        _ => false,
    }
}

/// What the check of a body leads to: it passes if it is not protected or its packet number is fresh.
pub open spec fn body_passed<'a>(
    before: StaTxRx,
    after: StaTxRx,
    is_group: bool,
    key_id: u8,
    body: DataBody<'a>,
    payload: Option<DataBody<'a>>,
) -> bool {
    match body.packet_number {
        None => payload == Some(body) && after == before,
        Some(packet_number) => {
            if is_fresh(before, is_group, key_id, packet_number) {
                &&& payload == Some(body)
                &&& counter_advanced(before, after, is_group, key_id, packet_number)
            } else {
                payload is None && after == before
            }
        },
    }
}

/// Check the packet number of a protected body, and let the body pass if it is fresh.
///
/// Bodies that are not protected pass. Group addressed frames are protected by the group key with the
/// identifier on the wire, all others by the pairwise key.
pub fn process_potentially_wrapped_payload<'a>(
    sta_tx_rx: &mut StaTxRx,
    is_group: bool,
    key_id: u8,
    body: DataBody<'a>,
) -> (payload: Option<DataBody<'a>>)
    ensures
        body_passed(*old(sta_tx_rx), *final(sta_tx_rx), is_group, key_id, body, payload),
        old(sta_tx_rx).wf() ==> final(sta_tx_rx).wf(),
{
    let packet_number: u64 = match body.packet_number {
        Some(packet_number) => packet_number,
        None => {
            return Some(body);
        },
    };
    let valid = match &mut sta_tx_rx.crypto_state {
        Some(state) => {
            if is_group {
                if (key_id as usize) < KEY_ID_COUNT {
                    match &mut state.security_associations.group_keys[key_id as usize] {
                        Some(key) => key.update_and_validate_replay_counter(packet_number),
                        None => false,
                    }
                } else {
                    false
                }
            } else {
                state.security_associations.ptksa.update_and_validate_replay_counter(packet_number)
            }
        },
        None => false,
    };
    proof {
        if !valid && sta_tx_rx.crypto_state is Some {
            let old_keys = old(sta_tx_rx).crypto_state->Some_0.security_associations;
            let new_keys = sta_tx_rx.crypto_state->Some_0.security_associations;
            assert(new_keys.group_keys@ =~= old_keys.group_keys@);
            assert(new_keys.group_keys =~= old_keys.group_keys);
        }
    }
    if valid {
        Some(body)
    } else {
        None
    }
}

/// The Ethernet frame for an MSDU; nothing if the MSDU has no SNAP header or the frame does not fit
/// into `capacity` bytes.
pub open spec fn deliverable(
    payload: Seq<u8>,
    source: Seq<u8>,
    destination: Seq<u8>,
    capacity: nat,
) -> Option<Seq<u8>> {
    if is_snap(payload) && payload.len() + 6 <= capacity {
        Some(
            ethernet_frame(
                destination,
                source,
                be_value(payload.subrange(6, 8)),
                payload.subrange(8, payload.len() as int),
            ),
        )
    } else {
        None
    }
}

/// Allocate a buffer of zeroes.
fn zeroed(length: usize) -> (buffer: Vec<u8>)
    ensures
        buffer@.len() == length,
{
    let mut buffer: Vec<u8> = Vec::new();
    let mut i: usize = 0;
    while i < length
        invariant
            i <= length,
            buffer@.len() == i,
        decreases length - i,
    {
        buffer.push(0);
        i = i + 1;
    }
    buffer
}

/// Turn a single MSDU into an Ethernet frame for the network stack, whose buffers hold `capacity`
/// bytes.
pub fn handle_downlink_msdu(
    payload: &[u8],
    source_address: MACAddress,
    destination_address: MACAddress,
    capacity: usize,
) -> (frame: Option<Vec<u8>>)
    ensures
        frame is Some == deliverable(
            payload@,
            source_address@,
            destination_address@,
            capacity as nat,
        ) is Some,
        frame matches Some(frame) ==> Some(frame@) == deliverable(
            payload@,
            source_address@,
            destination_address@,
            capacity as nat,
        ),
{
    let llc = match parse_llc(payload) {
        Some(llc) => llc,
        None => {
            return None;
        },
    };
    if payload.len() > capacity || capacity - payload.len() < 6 {
        return None;
    }
    let mut frame = zeroed(llc.payload.len() + 14);
    let written: usize = serialize_ethernet(
        destination_address,
        source_address,
        llc.ether_type,
        &llc.payload,
        frame.as_mut_slice(),
    );
    proof {
        lemma_be_bytes_length(llc.ether_type as nat, 2);
        assert(frame@ =~= ethernet_frame(
            destination_address@,
            source_address@,
            llc.ether_type as nat,
            llc.payload@,
        ));
    }
    Some(frame)
}

/// The Ethernet frames for the MSDUs of an aggregate, up to the first that cannot be delivered, and
/// whether all could be.
pub open spec fn amsdu_delivery(amsdu: Seq<u8>, capacity: nat) -> (Seq<Seq<u8>>, bool)
    decreases amsdu.len(),
{
    if !has_subframe(amsdu) {
        (Seq::<Seq<u8>>::empty(), true)
    } else {
        let rest = amsdu.subrange(subframe_span(amsdu), amsdu.len() as int);
        match deliverable(
            amsdu.subrange(14, 14 + subframe_length(amsdu)),
            amsdu.subrange(6, 12),
            amsdu.subrange(0, 6),
            capacity,
        ) {
            Some(frame) if 0 < subframe_span(amsdu) <= amsdu.len() => (
                seq![frame] + amsdu_delivery(rest, capacity).0,
                amsdu_delivery(rest, capacity).1,
            ),
            _ => (Seq::<Seq<u8>>::empty(), false),
        }
    }
}

/// Whether the padding of every MSDU of an aggregate is there, up to the first that cannot be
/// delivered.
pub open spec fn amsdu_padded(amsdu: Seq<u8>, capacity: nat) -> bool
    decreases amsdu.len(),
{
    has_subframe(amsdu) ==> {
        &&& 0 < subframe_span(amsdu) <= amsdu.len()
        &&& deliverable(
            amsdu.subrange(14, 14 + subframe_length(amsdu)),
            amsdu.subrange(6, 12),
            amsdu.subrange(0, 6),
            capacity,
        ) is Some ==> amsdu_padded(
            amsdu.subrange(subframe_span(amsdu), amsdu.len() as int),
            capacity,
        )
    }
}

/// Ethernet frames for the network stack.
pub struct Delivery {
    /// The frames, in order.
    pub frames: Vec<Vec<u8>>,
    /// Whether everything that was received is among them.
    pub complete: bool,
}

impl Delivery {
    /// The contents of the frames.
    pub open spec fn contents(&self) -> Seq<Seq<u8>> {
        Seq::new(self.frames@.len(), |i: int| self.frames@[i]@)
    }
}

/// Turn the MSDUs of an aggregate into Ethernet frames, up to the first that cannot be delivered.
fn handle_amsdu(amsdu: &[u8], capacity: usize) -> (delivery: Delivery)
    requires
        amsdu_padded(amsdu@, capacity as nat),
    ensures
        (delivery.contents(), delivery.complete) == amsdu_delivery(amsdu@, capacity as nat),
{
    let length: usize = amsdu.len();
    let mut frames: Vec<Vec<u8>> = Vec::new();
    let mut at: usize = 0;
    let ghost contents: Seq<Seq<u8>> = Seq::empty();
    proof {
        assert(amsdu@.subrange(0, length as int) =~= amsdu@);
        assert(contents + amsdu_delivery(amsdu@, capacity as nat).0 =~= amsdu_delivery(
            amsdu@,
            capacity as nat,
        ).0);
    }
    loop
        invariant
            at <= length,
            length == amsdu@.len(),
            contents.len() == frames@.len(),
            forall|i: int| 0 <= i < contents.len() ==> contents[i] == (#[trigger] frames@[i])@,
            amsdu_padded(amsdu@.subrange(at as int, length as int), capacity as nat),
            amsdu_delivery(amsdu@, capacity as nat).0 == contents + amsdu_delivery(
                amsdu@.subrange(at as int, length as int),
                capacity as nat,
            ).0,
            amsdu_delivery(amsdu@, capacity as nat).1 == amsdu_delivery(
                amsdu@.subrange(at as int, length as int),
                capacity as nat,
            ).1,
        decreases length - at,
    {
        let rest = &amsdu[at..length];
        let subframe = match first_subframe(rest) {
            Some(subframe) => subframe,
            None => {
                let delivery = Delivery { frames, complete: true };
                assert(delivery.contents() =~= contents);
                assert(contents + Seq::<Seq<u8>>::empty() =~= contents);
                return delivery;
            },
        };
        match handle_downlink_msdu(
            &subframe.payload,
            subframe.source_address,
            subframe.destination_address,
            capacity,
        ) {
            Some(frame) => {
                proof {
                    let span = subframe_span(rest@);
                    let remainder = rest@.subrange(span, rest@.len() as int);
                    assert(remainder =~= amsdu@.subrange(at + span, length as int));
                    assert(contents + (seq![frame@] + amsdu_delivery(
                        remainder,
                        capacity as nat,
                    ).0) =~= contents.push(frame@) + amsdu_delivery(remainder, capacity as nat).0);
                    contents = contents.push(frame@);
                }
                frames.push(frame);
                at = length - subframe.remaining;
            },
            None => {
                let delivery = Delivery { frames, complete: false };
                assert(delivery.contents() =~= contents);
                assert(contents + Seq::<Seq<u8>>::empty() =~= contents);
                return delivery;
            },
        }
    }
}

/// Check whether the padding of every MSDU of an aggregate is there, up to the first that cannot be
/// delivered.
fn check_amsdu(amsdu: &[u8], capacity: usize) -> (padded: bool)
    ensures
        padded == amsdu_padded(amsdu@, capacity as nat),
{
    let length: usize = amsdu.len();
    let mut at: usize = 0;
    assert(amsdu@.subrange(0, length as int) =~= amsdu@);
    loop
        invariant
            at <= length,
            length == amsdu@.len(),
            amsdu_padded(amsdu@, capacity as nat) == amsdu_padded(
                amsdu@.subrange(at as int, length as int),
                capacity as nat,
            ),
        decreases length - at,
    {
        let rest = &amsdu[at..length];
        if rest.len() < 14 {
            return true;
        }
        let msdu_length: usize = read_le16(rest, 12) as usize;
        if rest.len() - 14 < msdu_length {
            return true;
        }
        let span: usize = (14 + msdu_length + 3) / 4 * 4;
        if span > rest.len() {
            return false;
        }
        let subframe = match first_subframe(rest) {
            Some(subframe) => subframe,
            None => {
                return true;
            },
        };
        match handle_downlink_msdu(
            &subframe.payload,
            subframe.source_address,
            subframe.destination_address,
            capacity,
        ) {
            Some(_) => {
                assert(rest@.subrange(span as int, rest@.len() as int) =~= amsdu@.subrange(
                    at + span,
                    length as int,
                ));
                at = at + span;
            },
            None => {
                return true;
            },
        }
    }
}

/// Identifier of the key on the wire, in the highest two bits of the fourth byte of the CCMP header.
pub open spec fn wire_key_id(frame: Seq<u8>) -> u8 {
    frame[data_header_length(frame) + 3] >> 6
}

/// Check whether a packet number is fresh.
fn check_fresh(sta_tx_rx: &StaTxRx, is_group: bool, key_id: u8, packet_number: u64) -> (fresh: bool)
    ensures
        fresh == is_fresh(*sta_tx_rx, is_group, key_id, packet_number),
{
    match &sta_tx_rx.crypto_state {
        Some(state) => {
            if !is_group {
                packet_number > state.security_associations.ptksa.replay_counter
            } else if (key_id as usize) < KEY_ID_COUNT {
                match &state.security_associations.group_keys[key_id as usize] {
                    Some(key) => packet_number > key.replay_counter,
                    None => false,
                }
            } else {
                false
            }
        },
        None => false,
    }
}

/// Whether a data frame is to be delivered: its addresses are known, it has a body, and if it is
/// protected, its packet number is fresh.
pub open spec fn data_admitted(sta_tx_rx: StaTxRx, frame: Seq<u8>) -> bool {
    &&& destination_of(frame) is Some
    &&& source_of(frame) is Some
    &&& subtype_has_payload(frame_subtype(frame))
    &&& has_flag(frame, FLAG_PROTECTED) ==> is_fresh(
        sta_tx_rx,
        destination_of(frame)->Some_0[0] & 1 != 0,
        wire_key_id(frame),
        wire_packet_number(frame, data_header_length(frame)) as u64,
    )
}

/// The body of a data frame.
pub open spec fn body_of(frame: Seq<u8>) -> Seq<u8> {
    frame.subrange(body_offset(frame), frame.len() as int)
}

/// The Ethernet frames for a data frame that is admitted, and whether they are all.
pub open spec fn data_delivery(frame: Seq<u8>, capacity: nat) -> (Seq<Seq<u8>>, bool) {
    if is_amsdu(frame) {
        amsdu_delivery(body_of(frame), capacity)
    } else {
        match deliverable(
            body_of(frame),
            source_of(frame)->Some_0,
            destination_of(frame)->Some_0,
            capacity,
        ) {
            Some(delivered) => (seq![delivered], true),
            None => (Seq::<Seq<u8>>::empty(), false),
        }
    }
}

/// Whether a data frame can be handled: if its addresses are known, a protected one has a crypto
/// header, and an aggregate that is to be delivered is padded.
pub open spec fn is_well_formed(sta_tx_rx: StaTxRx, frame: Seq<u8>, capacity: nat) -> bool {
    is_data_frame(frame) && destination_of(frame) is Some && source_of(frame) is Some ==> {
        &&& crypto_header_readable(frame)
        &&& data_admitted(sta_tx_rx, frame) && is_amsdu(frame) ==> amsdu_padded(
            body_of(frame),
            capacity,
        )
    }
}

/// Check whether a data frame can be handled.
pub fn check_data_frame(sta_tx_rx: &StaTxRx, frame: &[u8], capacity: usize) -> (well_formed: bool)
    ensures
        well_formed == is_well_formed(*sta_tx_rx, frame@, capacity as nat),
{
    let header = match parse_data_frame(frame) {
        Some(header) => header,
        None => {
            return true;
        },
    };
    proof {
        lemma_header_addresses(header, frame@);
    }
    let destination = match (header.destination_address(), header.source_address()) {
        (Some(destination), Some(_)) => destination,
        _ => {
            return true;
        },
    };
    if !check_crypto_header(frame) {
        return false;
    }
    let body = match open_body(frame) {
        Some(body) => body,
        None => {
            return true;
        },
    };
    let fresh = match body.packet_number {
        Some(packet_number) => check_fresh(
            sta_tx_rx,
            destination.is_multicast(),
            frame[header.length + 3] >> 6,
            packet_number,
        ),
        None => true,
    };
    !fresh || !body.amsdu || check_amsdu(body.payload, capacity)
}

/// What a data frame leads to.
pub open spec fn data_handled(
    before: StaTxRx,
    after: StaTxRx,
    frame: Seq<u8>,
    capacity: nat,
    delivery: Delivery,
) -> bool {
    if data_admitted(before, frame) {
        &&& (delivery.contents(), delivery.complete) == data_delivery(frame, capacity)
        &&& if has_flag(frame, FLAG_PROTECTED) {
            counter_advanced(
                before,
                after,
                destination_of(frame)->Some_0[0] & 1 != 0,
                wire_key_id(frame),
                wire_packet_number(frame, data_header_length(frame)) as u64,
            )
        } else {
            after == before
        }
    } else {
        &&& delivery.contents().len() == 0
        &&& !delivery.complete
        &&& after == before
    }
}

/// Forward a received data frame to higher layers, as Ethernet frames for buffers of `capacity`
/// bytes.
pub fn handle_data_rx(sta_tx_rx: &mut StaTxRx, frame: &[u8], capacity: usize) -> (delivery: Delivery)
    requires
        is_data_frame(frame@),
        is_well_formed(*old(sta_tx_rx), frame@, capacity as nat),
    ensures
        old(sta_tx_rx).wf() ==> final(sta_tx_rx).wf(),
        data_handled(*old(sta_tx_rx), *final(sta_tx_rx), frame@, capacity as nat, delivery),
{
    let nothing: Vec<Vec<u8>> = Vec::new();
    let dropped = Delivery { frames: nothing, complete: false };
    let header = match parse_data_frame(frame) {
        Some(header) => header,
        None => {
            return dropped;
        },
    };
    proof {
        lemma_header_addresses(header, frame@);
    }
    let destination_address = match header.destination_address() {
        Some(address) => address,
        None => {
            return dropped;
        },
    };
    let source_address = match header.source_address() {
        Some(address) => address,
        None => {
            return dropped;
        },
    };
    let body = match open_body(frame) {
        Some(body) => body,
        None => {
            return dropped;
        },
    };
    let key_id: u8 = if header.protected() {
        frame[header.length + 3] >> 6
    } else {
        0
    };
    let payload = match process_potentially_wrapped_payload(
        sta_tx_rx,
        destination_address.is_multicast(),
        key_id,
        body,
    ) {
        Some(payload) => payload,
        None => {
            return dropped;
        },
    };
    if payload.amsdu {
        handle_amsdu(payload.payload, capacity)
    } else {
        match handle_downlink_msdu(
            payload.payload,
            source_address,
            destination_address,
            capacity,
        ) {
            Some(delivered) => {
                let ghost contents = delivered@;
                let mut frames: Vec<Vec<u8>> = Vec::new();
                frames.push(delivered);
                let delivery = Delivery { frames, complete: true };
                assert(delivery.contents() =~= seq![contents]);
                delivery
            },
            None => {
                assert(dropped.contents() =~= Seq::<Seq<u8>>::empty());
                dropped
            },
        }
    }
}

/// The answer to an EAPOL frame that arrives during a connection.
pub enum EapolReply {
    /// There is none.
    Nothing,
    /// Message 4 is in the buffer.
    Message4(Transmission),
    /// Group message 2 is in the buffer, if it could be protected.
    GroupMessage2(Result<Transmission, StaError>),
}

/// The parts of the pairwise key of a connection: confirmation key, encryption key, temporal key.
pub open spec fn key_parts(state: CryptoState) -> (Seq<u8>, Seq<u8>, Seq<u8>) {
    ptk_parts(
        state.security_associations.ptksa.key@,
        state.security_associations.akm_suite,
        state.security_associations.cipher_suite,
    )->Some_0
}

/// Whether an EAPOL frame is looked at: it comes from the access point, and if it is protected, its
/// packet number is fresh.
pub open spec fn eapol_admitted(
    sta_tx_rx: StaTxRx,
    frame: Seq<u8>,
    own: Seq<u8>,
    bssid: Seq<u8>,
) -> bool {
    &&& sta_tx_rx.crypto_state is Some
    &&& normalizable(frame, own, bssid)
    &&& has_flag(frame, FLAG_PROTECTED) ==> is_fresh(
        sta_tx_rx,
        false,
        0,
        wire_packet_number(frame, data_header_length(frame)) as u64,
    )
}

/// Whether `after` is `before` once the packet number of an EAPOL frame was taken note of.
pub open spec fn eapol_noted(before: StaTxRx, after: StaTxRx, frame: Seq<u8>) -> bool {
    if has_flag(frame, FLAG_PROTECTED) {
        counter_advanced(
            before,
            after,
            false,
            0,
            wire_packet_number(frame, data_header_length(frame)) as u64,
        )
    } else {
        after == before
    }
}

/// Whether a frame is a retry of message 3 of the connection.
pub open spec fn is_retry_of_connection(
    state: CryptoState,
    frame: Seq<u8>,
    scratch: nat,
    own: Seq<u8>,
    bssid: Seq<u8>,
) -> bool {
    let keys = state.security_associations;
    is_message_3_retry(
        frame,
        scratch,
        key_parts(state).0,
        key_parts(state).1,
        keys.group_keys@[keys.active_group_id as int]->Some_0.key@,
        keys.active_group_id,
        own,
        bssid,
        state.message3_replay.authenticator_nonce@,
        state.message3_replay.replay_counter,
    )
}

/// How an EAPOL frame without protection is answered.
///
/// A retry of message 3 is answered by message 4, and nothing but the replay counter of the exchange
/// changes. Group message 1 is answered by group message 2, unless it is ignored.
pub open spec fn eapol_answered(
    before: StaTxRx,
    after: StaTxRx,
    frame: Seq<u8>,
    scratch: nat,
    own: Seq<u8>,
    bssid: Seq<u8>,
    buffer: Seq<u8>,
    commands: Seq<KeyCommand>,
    reply: EapolReply,
) -> bool {
    let state = before.crypto_state->Some_0;
    let kck = key_parts(state).0;
    let kek = key_parts(state).1;
    if is_retry_of_connection(state, frame, scratch, own, bssid) {
        let counter = replay_counter(envelope(frame)) as u64;
        &&& counter as nat == replay_counter(envelope(frame))
        &&& counter > state.message3_replay.replay_counter
        &&& after == (StaTxRx {
            crypto_state: Some(
                CryptoState {
                    message3_replay: Message3Replay {
                        replay_counter: counter,
                        ..state.message3_replay
                    },
                    ..state
                },
            ),
            ..before
        })
        &&& reply == EapolReply::Message4(eapol_transmission(131, before.phy_rate, None))
        &&& buffer.subrange(0, 131) == eapol_frame(
            bssid,
            own,
            message_4_fields(state.message3_replay.supplicant_nonce, counter),
            Seq::<u8>::empty(),
            kck,
        )
        &&& commands.len() == 0
    } else if is_group_message_1(frame, scratch, own, bssid) && carries_group_key(
        kck,
        kek,
        envelope(frame),
    ) {
        exists|message: GroupMessage1|
            {
                &&& #[trigger] message.read_from(frame, kck, kek)
                &&& group_message_answered(
                    before,
                    after,
                    message,
                    own,
                    bssid,
                    kck,
                    buffer,
                    commands,
                    reply,
                )
            }
    } else {
        &&& after == before
        &&& reply is Nothing
        &&& commands.len() == 0
    }
}

/// How group message 1 is answered: not at all where it is ignored; else it is accepted, and group
/// message 2 with its counter takes a packet number of the pairwise key.
pub open spec fn group_message_answered(
    before: StaTxRx,
    after: StaTxRx,
    message: GroupMessage1,
    own: Seq<u8>,
    bssid: Seq<u8>,
    kck: Seq<u8>,
    buffer: Seq<u8>,
    commands: Seq<KeyCommand>,
    reply: EapolReply,
) -> bool {
    let state = before.crypto_state->Some_0;
    &&& exists|address: [u8; 6]|
        address@ == bssid && commands == #[trigger] state.group_message_commands(message, address)
    &&& if state.group_message_outcome(message) is Ignored {
        after == before && reply is Nothing
    } else {
        &&& reply is GroupMessage2
        &&& exists|accepted: StaTxRx|
            {
                &&& accepted == (StaTxRx { crypto_state: accepted.crypto_state, ..before })
                &&& accepted.crypto_state is Some
                &&& accepted.crypto_state->Some_0.is_after_group_message(state, message)
                &&& #[trigger] protected_key_frame_sent(
                    accepted,
                    after,
                    buffer,
                    bssid,
                    own,
                    kck,
                    GROUP_MESSAGE_2_INFORMATION,
                    message.counter,
                    reply->GroupMessage2_0,
                )
            }
    }
}

/// Decoding a message 3 leaves its key information.
proof fn lemma_decoded_keeps_information(frame: Seq<u8>, plain: Seq<u8>)
    requires
        is_data_frame(frame),
        envelope_offset(frame) + 99 <= frame.len(),
    ensures
        key_information(envelope(with_plain_key_data(frame, plain))) == key_information(
            envelope(frame),
        ),
{
    let decoded = with_plain_key_data(frame, plain);
    assert(decoded[0] == frame[0] && decoded[1] == frame[1]);
    assert(envelope_offset(decoded) == envelope_offset(frame));
    lemma_be_bytes_length((frame.len() - envelope_offset(frame) - 12) as nat, 2);
    assert(envelope(decoded).subrange(5, 7) =~= envelope(frame).subrange(5, 7));
}

/// What an EAPOL frame that arrives during a connection leads to. One that is not admitted changes
/// nothing; for any other its packet number is noted, if it has one, and it may be answered.
pub open spec fn eapol_handled(
    before: StaTxRx,
    after: StaTxRx,
    frame: Seq<u8>,
    scratch: nat,
    own: Seq<u8>,
    bssid: Seq<u8>,
    buffer: Seq<u8>,
    commands_before: Seq<KeyCommand>,
    commands_after: Seq<KeyCommand>,
    reply: EapolReply,
) -> bool {
    if eapol_admitted(before, frame, own, bssid) {
        exists|noted: StaTxRx, commands: Seq<KeyCommand>|
            {
                &&& eapol_noted(before, noted, frame)
                &&& commands_after == commands_before + commands
                &&& #[trigger] eapol_answered(
                    noted,
                    after,
                    normalized(frame),
                    scratch,
                    own,
                    bssid,
                    buffer,
                    commands,
                    reply,
                )
            }
    } else {
        &&& after == before
        &&& reply is Nothing
        &&& commands_after == commands_before
    }
}

/// Handle an EAPOL frame that arrives during a connection: a retry of message 3, or group message 1.
///
/// Protected frames need a fresh packet number. Whatever fails its checks changes nothing else.
pub fn handle_eapol_retry(
    sta_tx_rx: &mut StaTxRx,
    manager: &mut KeySlotManager,
    frame: &mut [u8],
    scratch: &mut [u8],
    buffer: &mut [u8],
    own_address: MACAddress,
    bssid: MACAddress,
) -> (reply: EapolReply)
    requires
        old(sta_tx_rx).wf(),
        is_downlink(old(frame)@, own_address@, bssid@) ==> crypto_header_readable(old(frame)@),
        old(buffer)@.len() >= EAPOL_BUFFER_LENGTH + 24,
        bssid@[0] & 1 == 0,
    ensures
        final(sta_tx_rx).wf(),
        final(buffer)@.len() == old(buffer)@.len(),
        final(manager).key_slot_state == old(manager).key_slot_state,
        eapol_handled(
            *old(sta_tx_rx),
            *final(sta_tx_rx),
            old(frame)@,
            old(scratch)@.len(),
            own_address@,
            bssid@,
            final(buffer)@,
            old(manager).commands@,
            final(manager).commands@,
            reply,
        ),
{
    let ghost no_commands = Seq::<KeyCommand>::empty();
    assert(manager.commands@ + no_commands =~= manager.commands@);
    let ghost received = frame@;
    let (length, packet_number) = match normalize(frame, own_address, bssid) {
        Some(normalized) => normalized,
        None => {
            return EapolReply::Nothing;
        },
    };
    let rate = sta_tx_rx.phy_rate;
    let state = match &mut sta_tx_rx.crypto_state {
        Some(state) => state,
        None => {
            return EapolReply::Nothing;
        },
    };
    if let Some(packet_number) = packet_number {
        if !state.security_associations.ptksa.update_and_validate_replay_counter(packet_number) {
            return EapolReply::Nothing;
        }
    }
    let ghost noted_state = *state;
    let ghost noted = StaTxRx { crypto_state: Some(noted_state), ..*old(sta_tx_rx) };
    assert(eapol_noted(*old(sta_tx_rx), noted, received));
    let (kck, kek, _) = partition_ptk(
        &state.security_associations.ptksa.key,
        state.security_associations.akm_suite,
        state.security_associations.cipher_suite,
    ).unwrap();
    let kck = to_array::<16>(kck);
    let kek = to_array::<16>(kek);
    let gtk_id: u8 = state.security_associations.active_group_id;
    let gtk: [u8; 16] = state.security_associations.active_group_key().key;
    let supplicant_nonce: [u8; 32] = state.message3_replay.supplicant_nonce;
    let (plain, _) = frame.split_at_mut(length);
    assert(plain@ =~= normalized(received));
    if let Some(counter) = state.message3_replay.accept(
        plain,
        scratch,
        &kck,
        &kek,
        &gtk,
        gtk_id,
        own_address,
        bssid,
    ) {
        let transmission = send_message_4(
            buffer,
            rate,
            bssid,
            own_address,
            &kck,
            &supplicant_nonce,
            counter,
        );
        let reply = EapolReply::Message4(transmission);
        assert(eapol_answered(
            noted,
            *sta_tx_rx,
            normalized(received),
            scratch@.len(),
            own_address@,
            bssid@,
            buffer@,
            no_commands,
            reply,
        ));
        return reply;
    }
    proof {
        if is_message_3(normalized(received), scratch@.len(), own_address@, bssid@) {
            if let Some(key_data) = authentic_key_data(
                kck@,
                kek@,
                envelope(normalized(received)),
            ) {
                lemma_decoded_keeps_information(normalized(received), key_data);
            }
        }
    }
    let ghost undecoded = plain@;
    let message = match decode_group_message_1(plain, scratch, &kck, &kek, own_address, bssid) {
        Some(message) => message,
        None => {
            let reply = EapolReply::Nothing;
            assert(*state == noted_state);
            assert(eapol_answered(
                noted,
                *sta_tx_rx,
                normalized(received),
                scratch@.len(),
                own_address@,
                bssid@,
                buffer@,
                no_commands,
                reply,
            ));
            return reply;
        },
    };
    let counter: u64 = message.counter;
    let ghost commands = noted_state.group_message_commands(message, bssid.0);
    assert(undecoded == normalized(received));
    assert(message.read_from(normalized(received), kck@, kek@));
    if state.accept_group_message(manager, message, bssid.0).is_none() {
        let reply = EapolReply::Nothing;
        assert(group_message_answered(
            noted,
            *sta_tx_rx,
            message,
            own_address@,
            bssid@,
            kck@,
            buffer@,
            commands,
            reply,
        ));
        assert(eapol_answered(
            noted,
            *sta_tx_rx,
            normalized(received),
            scratch@.len(),
            own_address@,
            bssid@,
            buffer@,
            commands,
            reply,
        ));
        return reply;
    }
    let ghost accepted = *sta_tx_rx;
    let result = send_group_message_2(
        sta_tx_rx,
        buffer,
        bssid,
        own_address,
        &kck,
        counter,
    );
    let reply = EapolReply::GroupMessage2(result);
    assert(accepted == (StaTxRx { crypto_state: accepted.crypto_state, ..noted }));
    assert(group_message_answered(
        noted,
        *sta_tx_rx,
        message,
        own_address@,
        bssid@,
        kck@,
        buffer@,
        commands,
        reply,
    ));
    assert(eapol_answered(
        noted,
        *sta_tx_rx,
        normalized(received),
        scratch@.len(),
        own_address@,
        bssid@,
        buffer@,
        commands,
        reply,
    ));
    reply
}

/// A retry of message 3 leaves the keys of the connection and their packet numbers alone.
pub proof fn message_3_retry_keeps_keys(
    before: StaTxRx,
    after: StaTxRx,
    frame: Seq<u8>,
    scratch: nat,
    own: Seq<u8>,
    bssid: Seq<u8>,
    buffer: Seq<u8>,
    commands: Seq<KeyCommand>,
    reply: EapolReply,
)
    requires
        before.crypto_state is Some,
        is_retry_of_connection(before.crypto_state->Some_0, frame, scratch, own, bssid),
        eapol_answered(before, after, frame, scratch, own, bssid, buffer, commands, reply),
    ensures
        after.crypto_state is Some,
        after.crypto_state->Some_0.security_associations
            == before.crypto_state->Some_0.security_associations,
        commands.len() == 0,
        after.crypto_state->Some_0.message3_replay.replay_counter
            > before.crypto_state->Some_0.message3_replay.replay_counter,
{
}

/// A frame whose packet number was accepted is not accepted again, nor is any with a smaller one.
pub proof fn accepted_packet_is_not_replayable(
    before: StaTxRx,
    after: StaTxRx,
    is_group: bool,
    key_id: u8,
    packet_number: u64,
    replayed: u64,
)
    requires
        is_fresh(before, is_group, key_id, packet_number),
        counter_advanced(before, after, is_group, key_id, packet_number),
        replayed <= packet_number,
    ensures
        !is_fresh(after, is_group, key_id, replayed),
{
}

/// Packet numbers of the pairwise key and of each group key are counted apart: one that is accepted
/// does not change which others are fresh.
pub proof fn replay_counters_are_independent(
    before: StaTxRx,
    after: StaTxRx,
    is_group: bool,
    key_id: u8,
    packet_number: u64,
    other_is_group: bool,
    other_key_id: u8,
    other_packet_number: u64,
)
    requires
        is_fresh(before, is_group, key_id, packet_number),
        counter_advanced(before, after, is_group, key_id, packet_number),
        is_group != other_is_group || (is_group && key_id != other_key_id),
    ensures
        is_fresh(after, other_is_group, other_key_id, other_packet_number) == is_fresh(
            before,
            other_is_group,
            other_key_id,
            other_packet_number,
        ),
{
}

/// The address that is used to connect to a network, going by the active operation.
pub open spec fn spec_connecting_mac_address(router: StaRxRouter) -> Option<MACAddress> {
    match (
        router.foreground_queue_state.operation_state,
        router.background_queue_state.operation_state,
    ) {
        (Some(operation), _) => operation.spec_connecting_mac_address(),
        (None, Some(operation)) => operation.spec_connecting_mac_address(),
        (None, None) => None,
    }
}

/// Get the address that is used to connect to a network.
pub fn connecting_mac_address(router: &StaRxRouter) -> (address: Option<MACAddress>)
    ensures
        address == spec_connecting_mac_address(*router),
{
    match router.operation(RxRouterQueue::Foreground) {
        Some(operation) => operation.connecting_mac_address(),
        None => match router.operation(RxRouterQueue::Background) {
            Some(operation) => operation.connecting_mac_address(),
            None => None,
        },
    }
}

/// The address that frames must be sent to: that of the connection, or the one used to connect.
pub open spec fn spec_listening_address(sta_tx_rx: StaTxRx, router: StaRxRouter) -> Option<
    MACAddress,
> {
    match sta_tx_rx.connection_state.info() {
        Some(info) => Some(info.own_address),
        None => spec_connecting_mac_address(router),
    }
}

/// Whether a frame is not for this station: it is addressed to one station, and not to the one that
/// we are or are about to become.
pub open spec fn not_for_us(sta_tx_rx: StaTxRx, router: StaRxRouter, frame: Seq<u8>) -> bool {
    &&& frame[4] & 1 == 0
    &&& spec_listening_address(sta_tx_rx, router) matches Some(address) && address@
        != frame.subrange(4, 10)
}

/// Whether another interface is on another channel, so that frames must not be processed.
pub open spec fn other_is_off_channel(sta_tx_rx: StaTxRx, state: SharedLMacState) -> bool {
    &&& state.channel_state.off_channel_operation_interface is Some
    &&& !sta_tx_rx.spec_in_off_channel_operation(state)
}

/// Whether a frame carries EAPOL, behind a CCMP header or not.
pub open spec fn is_eapol(frame: Seq<u8>) -> bool {
    carries_eapol(frame) || (crypto_header_readable(frame) && spec_is_key_frame(frame))
}

/// What becomes of a received frame.
pub enum Routing {
    /// It is dropped.
    Dropped,
    /// It is turned into Ethernet frames.
    Delivered(Delivery),
    /// The router has taken it, or has not.
    Routed(Result<Option<RxRouterQueue>, RxRouterRoutingError>),
}

/// What becomes of a frame.
pub enum RoutingDecision {
    /// It is dropped.
    Drop,
    /// It is data for the network stack.
    Data,
    /// It goes to the router.
    Route,
}

/// Decide what becomes of a frame.
///
/// Frames for others are dropped, and all frames while another interface is on another channel. To
/// reduce latency, data frames are processed directly if we are connected, but not during an off
/// channel operation, since otherwise frames could be injected on other channels. All other frames
/// go to the router.
pub open spec fn routing_decision(
    sta_tx_rx: StaTxRx,
    state: SharedLMacState,
    router: StaRxRouter,
    frame: Seq<u8>,
) -> RoutingDecision {
    if frame.len() < 10 || not_for_us(sta_tx_rx, router, frame) || other_is_off_channel(
        sta_tx_rx,
        state,
    ) {
        RoutingDecision::Drop
    } else if sta_tx_rx.connection_state.info() is Some && !is_eapol(frame) && frame_type(frame)
        == 2 {
        if is_data_frame(frame) && !sta_tx_rx.spec_in_off_channel_operation(state) {
            RoutingDecision::Data
        } else {
            RoutingDecision::Drop
        }
    } else {
        RoutingDecision::Route
    }
}

/// Decide what becomes of a received frame.
///
/// Frames for other stations are dropped, and so are all frames while another interface is off
/// channel. Data frames are delivered directly if we are connected, but not during an off channel
/// operation of our own: otherwise it would be possible to inject frames on other channels. All
/// other frames are left to the router.
pub fn decide_routing(
    sta_tx_rx: &StaTxRx,
    state: &SharedLMacState,
    router: &StaRxRouter,
    frame: &[u8],
) -> (decision: RoutingDecision)
    ensures
        decision == routing_decision(*sta_tx_rx, *state, *router, frame@),
{
    let header = match parse_generic(frame) {
        Some(header) => header,
        None => {
            return RoutingDecision::Drop;
        },
    };
    if !header.address_1.is_multicast() {
        let listening_address = match sta_tx_rx.connection_state.connection_info() {
            Some(info) => Some(info.own_address),
            None => connecting_mac_address(router),
        };
        if let Some(own_address) = listening_address {
            if own_address != header.address_1 {
                assert(not_for_us(*sta_tx_rx, *router, frame@));
                return RoutingDecision::Drop;
            }
        }
    }
    assert(!not_for_us(*sta_tx_rx, *router, frame@));
    let in_off_channel_operation = sta_tx_rx.in_off_channel_operation(state);
    if !in_off_channel_operation
        && sta_tx_rx.interface_control.off_channel_operation_in_progress(state) {
        return RoutingDecision::Drop;
    }
    if sta_tx_rx.connection_state.connected() {
        let is_eapol = is_eapol_key_frame(frame) || (check_crypto_header(frame) && is_key_frame(
            frame,
        ));
        if !is_eapol && header.is_data(Ghost(frame@)) {
            return if parse_data_frame(frame).is_none() || in_off_channel_operation {
                RoutingDecision::Drop
            } else {
                RoutingDecision::Data
            };
        }
    }
    RoutingDecision::Route
}

/// What a received frame leads to: it is dropped, delivered, or left to the router.
pub open spec fn frame_forwarded(
    before: (StaTxRx, StaRxRouter),
    after: (StaTxRx, StaRxRouter),
    state: SharedLMacState,
    frame: Seq<u8>,
    handle: usize,
    capacity: nat,
    routing: Routing,
) -> bool {
    match routing_decision(before.0, state, before.1, frame) {
        RoutingDecision::Drop => routing is Dropped && after == before,
        RoutingDecision::Data => {
            &&& after.1 == before.1
            &&& routing matches Routing::Delivered(delivery)
            &&& data_handled(before.0, after.0, frame, capacity, delivery)
        },
        RoutingDecision::Route => {
            &&& after.0 == before.0
            &&& routing matches Routing::Routed(result)
            &&& after.1.is_after_route(before.1, frame, handle, result)
        },
    }
}

/// Decide what becomes of a received frame, and forward it.
pub fn route_received(
    sta_tx_rx: &mut StaTxRx,
    state: &SharedLMacState,
    router: &mut StaRxRouter,
    frame: &[u8],
    handle: usize,
    capacity: usize,
) -> (routing: Routing)
    requires
        old(router).wf(),
        routing_decision(*old(sta_tx_rx), *state, *old(router), frame@) is Data ==> is_well_formed(
            *old(sta_tx_rx),
            frame@,
            capacity as nat,
        ),
    ensures
        final(router).wf(),
        old(sta_tx_rx).wf() ==> final(sta_tx_rx).wf(),
        frame_forwarded(
            (*old(sta_tx_rx), *old(router)),
            (*final(sta_tx_rx), *final(router)),
            *state,
            frame@,
            handle,
            capacity as nat,
            routing,
        ),
{
    match decide_routing(sta_tx_rx, state, router, frame) {
        RoutingDecision::Drop => Routing::Dropped,
        RoutingDecision::Data => Routing::Delivered(handle_data_rx(sta_tx_rx, frame, capacity)),
        RoutingDecision::Route => Routing::Routed(router.route_frame(frame, handle)),
    }
}

} // verus!

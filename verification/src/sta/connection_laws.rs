//! What establishing, watching and ending a connection promises, over the bytes of the frames.
use vstd::prelude::*;
use vstd::utf8::encode_utf8;

use crate::bytes::{le_bytes, le_value, overwrite};
use crate::eapol::wpa2_personal;
use crate::frame::frame_type;
use crate::lmac::crypto::{KeyCommand, KeySlot, KeySlotManager, KeyType};
use crate::mac::{mac_address_extensional, MACAddress};
use crate::mgmt::{mgmt_field, mgmt_header_length};
use crate::lmac::SharedLMacState;
use crate::radio::{RxInterface, TxPhyRate, KEY_SLOT_COUNT};
use crate::sta::bss::{pmk_of, Credentials, SecurityConfig, BSS};
use crate::sta::connection_state::{
    ConnectionConfig, ConnectionState, DisconnectionReason, ReconnectDecision,
};
use crate::sta::operations::connect::{
    association_requested, attempt_completed, attempt_continued, attempt_given_up,
    authentication_requested, clear_commands, free_slots, is_among, is_protected, keys_in_use,
    keys_prepared, response_taken, ConnectionOperation, ConnectionPhase, ConnectionStep,
    PreparedKeys, StepAction, EXTENDED_RATES, SUPPORTED_RATES,
};
use crate::sta::rsn::{keys_programmed, CryptoState, SecurityAssociations};
use crate::sta::rsn_retransmit::Message3Replay;
use crate::sta::runner::{
    bg_rx_event, connection_is_over, ConnectionAction, ConnectionRxEvent, ConnectionWatch,
};
use crate::sta::rx_router::{StaRxRouter, StaRxRouterOperation};
use crate::sta::control::{
    connect_decided, connection_noted, leaving_transmission, network_left, ConnectDecision,
};
use crate::sta::{StaError, StaTxRx};
use crate::tx_queue::RetryBehaviour;
use crate::util::operations::deauth::{deauthentication_frame, Transmission};

verus! {

/// Where the body of a management frame starts: behind three addresses, and four bytes of HT control
/// if the order flag is set.
pub open spec fn body_start(frame: Seq<u8>) -> int {
    24 + if frame[1] & 0x80 != 0 {
        4int
    } else {
        0
    }
}

/// The number in the two bytes at `at` in the body of a management frame.
pub open spec fn field_bytes(frame: Seq<u8>, at: int) -> int {
    frame[body_start(frame) + at] + 256 * frame[body_start(frame) + at + 1]
}

/// Whether `frame` is a management frame with `length` bytes of body.
pub open spec fn management_bytes(frame: Seq<u8>, length: int) -> bool {
    &&& frame.len() >= 24
    &&& frame[0] & 0x0c == 0
    &&& body_start(frame) + length <= frame.len()
}

/// The bytes of a management frame are what its fields say.
proof fn lemma_field_bytes(frame: Seq<u8>, at: int)
    requires
        frame.len() >= 24,
        0 <= at,
    ensures
        mgmt_header_length(frame) == body_start(frame),
        (frame_type(frame) == 0) == (frame[0] & 0x0c == 0),
        body_start(frame) + at + 2 <= frame.len() ==> mgmt_field(frame, at) == field_bytes(
            frame,
            at,
        ),
{
    let control = frame[0];
    assert(((control >> 2) & 3 == 0) == (control & 0x0c == 0)) by (bit_vector);
    if body_start(frame) + at + 2 <= frame.len() {
        let start = body_start(frame) + at;
        let bytes = frame.subrange(start, start + 2);
        reveal_with_fuel(le_value, 3);
        assert(bytes.drop_first().drop_first() =~= Seq::<u8>::empty());
        assert(bytes.drop_first().first() == frame[start + 1]);
        assert(bytes.first() == frame[start]);
    }
}

/// Once an access point has accepted the authentication, association follows, and responses to that
/// are awaited. One that it refuses ends the attempt with its status.
pub proof fn authentication_leads_to_association(
    response: Seq<u8>,
    protected: bool,
    own_address: MACAddress,
    before: Option<StaRxRouterOperation>,
    after: Option<StaRxRouterOperation>,
    result: Result<ConnectionPhase, StaError>,
)
    requires
        management_bytes(response, 6),
        response_taken(
            ConnectionPhase::Authenticating,
            response,
            protected,
            own_address,
            before,
            after,
            result,
        ),
    ensures
        field_bytes(response, 4) == 0 ==> {
            &&& result == Ok::<ConnectionPhase, StaError>(ConnectionPhase::Associating)
            &&& after == Some(StaRxRouterOperation::Associating { own_address })
        },
        field_bytes(response, 4) != 0 ==> {
            &&& result == Err::<ConnectionPhase, StaError>(
                StaError::AuthenticationFailure(field_bytes(response, 4) as u16),
            )
            &&& after == before
        },
{
    lemma_field_bytes(response, 4);
}

/// Once an access point has accepted the association, a connection with keys goes on to the handshake,
/// and key frames are awaited; one without keys stands. Either way it has the association ID in the
/// lower fourteen bits of the response. What the access point refuses ends the attempt with its
/// status.
pub proof fn association_leads_to_the_handshake(
    response: Seq<u8>,
    protected: bool,
    own_address: MACAddress,
    before: Option<StaRxRouterOperation>,
    after: Option<StaRxRouterOperation>,
    result: Result<ConnectionPhase, StaError>,
)
    requires
        management_bytes(response, 6),
        field_bytes(response, 4) == 0 || 1 <= field_bytes(response, 4) % 0x4000 <= 2007,
        response_taken(
            ConnectionPhase::Associating,
            response,
            protected,
            own_address,
            before,
            after,
            result,
        ),
    ensures
        field_bytes(response, 2) == 0 && field_bytes(response, 4) != 0 && protected ==> {
            &&& result == Ok::<ConnectionPhase, StaError>(
                ConnectionPhase::Handshaking((field_bytes(response, 4) % 0x4000) as u16),
            )
            &&& after == Some(StaRxRouterOperation::CryptoHandshake { own_address })
        },
        field_bytes(response, 2) == 0 && field_bytes(response, 4) != 0 && !protected ==> {
            &&& result == Ok::<ConnectionPhase, StaError>(
                ConnectionPhase::Established((field_bytes(response, 4) % 0x4000) as u16),
            )
            &&& after == before
        },
        !(field_bytes(response, 2) == 0 && field_bytes(response, 4) != 0) ==> {
            &&& result == Err::<ConnectionPhase, StaError>(
                StaError::AssociationFailure(field_bytes(response, 2) as u16),
            )
            &&& after == before
        },
{
    lemma_field_bytes(response, 2);
    lemma_field_bytes(response, 4);
}

/// No step is skipped: association comes after an accepted authentication, the handshake after an
/// accepted association, and a connection with keys never stands without the handshake. A response
/// that cannot be read leads nowhere.
pub proof fn no_step_of_a_connection_is_skipped(
    phase: ConnectionPhase,
    response: Seq<u8>,
    protected: bool,
    own_address: MACAddress,
    before: Option<StaRxRouterOperation>,
    after: Option<StaRxRouterOperation>,
    result: Result<ConnectionPhase, StaError>,
)
    requires
        response_taken(phase, response, protected, own_address, before, after, result),
        phase is Authenticating || phase is Associating,
    ensures
        result matches Ok(ConnectionPhase::Associating) ==> phase is Authenticating,
        result matches Ok(ConnectionPhase::Handshaking(_)) ==> phase is Associating && protected,
        result matches Ok(ConnectionPhase::Established(_)) ==> phase is Associating && !protected,
        !(result matches Ok(ConnectionPhase::Authenticating)),
        result is Ok ==> management_bytes(response, 6),
        result is Err ==> after == before,
        !management_bytes(response, 6) ==> result == Err::<ConnectionPhase, StaError>(
            StaError::FrameDeserializationFailed,
        ),
{
    if response.len() >= 24 {
        lemma_field_bytes(response, 4);
        lemma_field_bytes(response, 2);
    }
}

/// The request for authentication goes to the access point, from us, and asks for open system
/// authentication: algorithm zero, first frame of the transaction, no status.
pub proof fn authentication_request_bytes(
    before: Seq<u8>,
    after: Seq<u8>,
    rate: TxPhyRate,
    bssid: Seq<u8>,
    own: Seq<u8>,
    transmission: Transmission,
)
    requires
        before.len() >= 30,
        bssid.len() == 6,
        own.len() == 6,
        authentication_requested(before, after, rate, bssid, own, transmission),
    ensures
        transmission.length == 30,
        transmission.plcp_parameters.rate == rate,
        transmission.mac_parameters.key_slot_index is None,
        transmission.mac_parameters.override_seq_num,
        !transmission.mac_parameters.wait_for_ack,
        transmission.retry_behaviour == RetryBehaviour::RetryUntil(7),
        after.len() == before.len(),
        after[0] == 0xb0,
        after[1] == 0,
        after.subrange(4, 10) == bssid,
        after.subrange(10, 16) == own,
        after.subrange(16, 22) == bssid,
        after.subrange(24, 30) == seq![0u8, 0, 1, 0, 0, 0],
{
    reveal_with_fuel(le_bytes, 3);
    assert(11u8 << 4 == 0xb0) by (bit_vector);
    assert(after.subrange(4, 10) =~= bssid);
    assert(after.subrange(10, 16) =~= own);
    assert(after.subrange(16, 22) =~= bssid);
    assert(after.subrange(24, 30) =~= seq![0u8, 0, 1, 0, 0, 0]);
}

/// The request for association goes to the access point, from us. It names the network by its SSID,
/// tells our rates, and asks for WPA2-PSK with CCMP exactly if the network is not open.
pub proof fn association_request_bytes(
    before: Seq<u8>,
    after: Seq<u8>,
    rate: TxPhyRate,
    bss: BSS,
    own: Seq<u8>,
    result: Result<Transmission, StaError>,
)
    requires
        before.len() >= 128,
        own.len() == 6,
        association_requested(before, after, rate, bss, own, result),
    ensures
        result is Ok == (encode_utf8(bss.ssid@).len() <= 32),
        result is Err ==> after == before,
        result matches Ok(transmission) ==> {
            let ssid = encode_utf8(bss.ssid@);
            let protected = bss.security_config != SecurityConfig::Open;
            let end = 30 + ssid.len() as int;
            &&& transmission.length == end + 16 + if protected {
                22int
            } else {
                0
            }
            &&& transmission.plcp_parameters.rate == rate
            &&& transmission.mac_parameters.key_slot_index is None
            &&& transmission.mac_parameters.override_seq_num
            &&& !transmission.mac_parameters.wait_for_ack
            &&& transmission.retry_behaviour == RetryBehaviour::RetryUntil(7)
            &&& after.len() == before.len()
            &&& after[0] == 0
            &&& after[1] == 0
            &&& after.subrange(4, 10) == bss.bssid@
            &&& after.subrange(10, 16) == own
            &&& after.subrange(16, 22) == bss.bssid@
            &&& after[24] == if protected {
                0x11
            } else {
                0x01u8
            }
            &&& after[25] == 0
            &&& after[28] == 0
            &&& after[29] == ssid.len()
            &&& after.subrange(30, end) == ssid
            &&& after.subrange(end, end + 16) == seq![
                1u8, 8, 0x82, 0x84, 0x8b, 0x96, 0x0c, 0x12, 0x18, 0x24, 50, 4, 0x30, 0x48, 0x60, 0x6c,
            ]
            &&& protected ==> after.subrange(end + 16, end + 38) == seq![
                0x30u8, 20, 1, 0, 0, 0x0f, 0xac, 4, 1, 0, 0, 0x0f, 0xac, 4, 1, 0, 0, 0x0f, 0xac, 2, 0,
                0,
            ]
        },
{
    reveal_with_fuel(le_bytes, 3);
    if result is Ok {
        assert(0u8 << 4 == 0) by (bit_vector);
        let ssid = encode_utf8(bss.ssid@);
        let end = 30 + ssid.len() as int;
        let protected = bss.security_config != SecurityConfig::Open;
        assert(after.subrange(4, 10) =~= bss.bssid@);
        assert(after.subrange(10, 16) =~= own);
        assert(after.subrange(16, 22) =~= bss.bssid@);
        assert(after.subrange(30, end) =~= ssid);
        assert(after.subrange(end, end + 16) =~= SUPPORTED_RATES@ + EXTENDED_RATES@);
        assert(SUPPORTED_RATES@ + EXTENDED_RATES@ =~= seq![
            1u8, 8, 0x82, 0x84, 0x8b, 0x96, 0x0c, 0x12, 0x18, 0x24, 50, 4, 0x30, 0x48, 0x60, 0x6c,
        ]);
        if protected {
            assert(after.subrange(end + 16, end + 38) =~= wpa2_personal());
        }
    }
}

/// Who leaves a network tells the other side: the frame goes from the one to the other, names the
/// network, and gives as reason that a station leaves.
pub proof fn deauthentication_bytes(bssid: Seq<u8>, station: Seq<u8>, to_ap: bool)
    requires
        bssid.len() == 6,
        station.len() == 6,
    ensures
        ({
            let frame = deauthentication_frame(bssid, station, to_ap);
            &&& frame.len() == 26
            &&& frame[0] == 0xc0
            &&& frame[1] == 0
            &&& frame.subrange(4, 10) == if to_ap {
                bssid
            } else {
                station
            }
            &&& frame.subrange(10, 16) == if to_ap {
                station
            } else {
                bssid
            }
            &&& frame.subrange(16, 22) == bssid
            &&& frame[24] == 3
            &&& frame[25] == 0
        }),
{
    reveal_with_fuel(le_bytes, 3);
    let frame = deauthentication_frame(bssid, station, to_ap);
    assert(12u8 << 4 == 0xc0) by (bit_vector);
    assert(frame.subrange(4, 10) =~= if to_ap {
        bssid
    } else {
        station
    });
    assert(frame.subrange(10, 16) =~= if to_ap {
        station
    } else {
        bssid
    });
    assert(frame.subrange(16, 22) =~= bssid);
}

/// A connection is ended by every deauthentication frame, and by nothing else that arrives; every
/// beacon shows that the network is still there, and nothing else does.
pub proof fn deauthentications_and_beacons_are_noticed(frame: Seq<u8>)
    ensures
        (bg_rx_event(frame) matches Some(ConnectionRxEvent::Disconnected(reason)) && reason
            == DisconnectionReason::Deauthenticated) == (management_bytes(frame, 2) && frame[0]
            & 0xf0 == 0xc0),
        (bg_rx_event(frame) == Some(ConnectionRxEvent::BeaconReceived)) == (management_bytes(
            frame,
            12,
        ) && frame[0] & 0xf0 == 0x80),
{
    if frame.len() >= 24 {
        lemma_field_bytes(frame, 0);
        let control = frame[0];
        assert((control >> 4 == 12) == (control & 0xf0 == 0xc0) && (control >> 4 == 8) == (control
            & 0xf0 == 0x80)) by (bit_vector);
        assert(control & 0xf0 == 0xc0 ==> control & 0xf0 != 0x80) by (bit_vector);
    }
}

/// A connection is given up no sooner than the configured time after the last beacon, and never
/// without a configured time.
pub proof fn beacons_put_the_deadline_off(beacon_timeout: Option<u64>, now: u64)
    requires
        beacon_timeout matches Some(timeout) ==> now + timeout <= u64::MAX,
    ensures
        beacon_timeout is None == ConnectionWatch::deadline_from(beacon_timeout, now) is None,
        beacon_timeout matches Some(timeout) ==> (ConnectionWatch::deadline_from(
            beacon_timeout,
            now,
        ) matches Some(deadline) && deadline - now == timeout),
{
}

/// Only who is configured to reconnect does so, and never after the user left the network.
pub proof fn users_stay_disconnected(config: ConnectionConfig, reason: DisconnectionReason)
    ensures
        config.spec_after_disconnection(DisconnectionReason::User) == ReconnectDecision::Stay,
        !config.automatic_reconnect ==> config.spec_after_disconnection(reason)
            == ReconnectDecision::Stay,
        config.automatic_reconnect && (reason == DisconnectionReason::BeaconTimeout || reason
            == DisconnectionReason::Deauthenticated) ==> config.spec_after_disconnection(reason)
            == ReconnectDecision::Reconnect,
{
}

/// Who left a network is not connected, and the reason is known to everybody who looks.
pub proof fn who_left_is_disconnected(before: StaTxRx, after: StaTxRx)
    requires
        after.has_left(before),
    ensures
        after.connection_state.info() is None,
        after.connection_state.connection_state == ConnectionState::Disconnected(
            DisconnectionReason::User,
        ),
        after.connection_state.signaled,
        after.phy_rate == TxPhyRate::Ofdm(6),
        after.crypto_state == before.crypto_state,
{
}

/// The master key is the pre shared key itself, which has to have the right length, or what the
/// passphrase gives for the network.
pub proof fn master_key_comes_from_credentials(psk: &[u8], passphrase: &str, ssid: Seq<char>, length: nat)
    ensures
        psk@.len() == length ==> pmk_of(Credentials::PreSharedKey(psk), ssid, length) == Some(psk@),
        psk@.len() != length ==> pmk_of(Credentials::PreSharedKey(psk), ssid, length) is None,
        pmk_of(Credentials::Passphrase(passphrase), ssid, length) == Some(
            crate::sta::bss::passphrase_psk(passphrase@, ssid, length),
        ),
{
}

/// A connection to a network that is not open is protected wherever there are credentials, and no
/// other is.
pub proof fn networks_that_are_not_open_are_protected(bss: BSS, credentials: Option<Credentials<'_>>)
    ensures
        is_protected(bss, credentials) <==> bss.security_config != SecurityConfig::Open
            && credentials is Some,
        credentials is None ==> !is_protected(bss, credentials),
{
}

/// The radio gets the keys that were negotiated: the last third of the pairwise key in its slot, and
/// the active group key in the slot of its identifier, both for the access point.
pub proof fn negotiated_keys_are_programmed(
    before: Seq<KeyCommand>,
    after: Seq<KeyCommand>,
    state: CryptoState,
    bssid: [u8; 6],
)
    requires
        state.wf(),
        state.security_associations.akm_suite == 0x02ac_0f00,
        state.security_associations.cipher_suite == 0x04ac_0f00,
        keys_programmed(before, after, state, bssid),
    ensures
        after.len() == before.len() + 2,
        forall|i: int| 0 <= i < before.len() ==> #[trigger] after[i] == before[i],
        after[before.len() as int] matches KeyCommand::Install {
            key_slot,
            interface,
            key_id,
            address,
            parameters,
        } && {
            &&& key_slot == state.ptk_key_slot.key_slot
            &&& interface == state.ptk_key_slot.interface
            &&& key_id == 0
            &&& address == bssid
            &&& parameters.key@ == state.security_associations.ptksa.key@.subrange(32, 48)
            &&& parameters.key_type == KeyType::Pairwise
        },
        after[before.len() as int + 1] matches KeyCommand::Install {
            key_slot,
            interface,
            key_id,
            address,
            parameters,
        } && {
            let id = state.security_associations.active_group_id;
            &&& key_slot == state.gtk_key_slots@[id as int].key_slot
            &&& key_id == id
            &&& address == bssid
            &&& Some(parameters.key) == match state.security_associations.group_keys@[id as int] {
                Some(group) => Some(group.key),
                None => None,
            }
            &&& parameters.key_type == KeyType::Group
        },
{
    assert forall|i: int| 0 <= i < before.len() implies #[trigger] after[i] == before[i] by {
        assert(after.subrange(0, before.len() as int)[i] == after[i]);
    }
}

/// Key slots are counted one by one, so a connection gets its five slots exactly where five are free.
pub proof fn free_slots_are_counted(manager: KeySlotManager, count: int)
    requires
        0 <= count,
    ensures
        free_slots(manager, 0) == 0,
        free_slots(manager, count + 1) == free_slots(manager, count) + if manager.is_free(count) {
            1int
        } else {
            0
        },
{
}

/// A connection that ends clears all of its slots, each once, and no other.
pub proof fn all_slots_of_a_connection_are_cleared(gtk_key_slots: Seq<KeySlot>, ptk_key_slot: KeySlot)
    requires
        gtk_key_slots.len() == 4,
    ensures
        ({
            let commands = clear_commands(gtk_key_slots, ptk_key_slot);
            &&& commands.len() == 5
            &&& forall|i: int|
                0 <= i < 4 ==> #[trigger] commands[i] == (KeyCommand::Clear {
                    key_slot: gtk_key_slots[i].key_slot,
                })
            &&& commands[4] == (KeyCommand::Clear { key_slot: ptk_key_slot.key_slot })
        }),
        is_among(ptk_key_slot.key_slot as int, gtk_key_slots, ptk_key_slot),
        forall|i: int|
            0 <= i < 4 ==> is_among(
                (#[trigger] gtk_key_slots[i]).key_slot as int,
                gtk_key_slots,
                ptk_key_slot,
            ),
{
}

/// Who leaves a network says so in one frame, in the clear, and waits for the acknowledgement.
pub proof fn leaving_is_acknowledged(rate: TxPhyRate)
    ensures
        leaving_transmission(rate).length == 26,
        leaving_transmission(rate).plcp_parameters.rate == rate,
        leaving_transmission(rate).mac_parameters.key_slot_index is None,
        leaving_transmission(rate).mac_parameters.wait_for_ack,
        leaving_transmission(rate).mac_parameters.override_seq_num,
        leaving_transmission(rate).retry_behaviour == RetryBehaviour::RetryUntil(7),
{
}

/// While a connection is watched, a beacon puts the deadline off by the configured time from now, a
/// deauthentication frame ends the connection, and nothing else does either.
pub proof fn watched_connections_go_by_what_arrives(
    before: ConnectionWatch,
    after: ConnectionWatch,
    frame: Seq<u8>,
    now: u64,
    action: ConnectionAction,
)
    requires
        before.beacon_timeout matches Some(timeout) ==> now + timeout <= u64::MAX,
        after.is_after_received(before, frame, now, action),
    ensures
        after.beacon_timeout == before.beacon_timeout,
        ({
            let deauthentication = management_bytes(frame, 2) && frame[0] & 0xf0 == 0xc0;
            let beacon = management_bytes(frame, 12) && frame[0] & 0xf0 == 0x80;
            &&& deauthentication ==> action == ConnectionAction::Disconnect(
                DisconnectionReason::Deauthenticated,
            )
            &&& !deauthentication ==> action == ConnectionAction::Continue
            &&& beacon ==> {
                &&& before.beacon_timeout matches Some(timeout) ==> (after.deadline matches Some(
                    deadline,
                ) && deadline == now + timeout)
                &&& before.beacon_timeout is None ==> after.deadline is None
            }
            &&& !beacon ==> after.deadline == before.deadline
        }),
{
    deauthentications_and_beacons_are_noticed(frame);
}

/// A connection is given up exactly once its deadline has passed. The access point is told then, at the
/// lowest rate.
pub proof fn silent_networks_are_left(
    watch: ConnectionWatch,
    now: u64,
    before: Seq<u8>,
    after: Seq<u8>,
    bssid: Seq<u8>,
    own: Seq<u8>,
    action: ConnectionAction,
)
    requires
        before.len() >= 26,
        bssid.len() == 6,
        own.len() == 6,
        watch.is_checked(now, before, after, bssid, own, action),
    ensures
        (watch.deadline matches Some(deadline) && deadline <= now) ==> {
            &&& action matches ConnectionAction::Deauthenticate(transmission, reason)
            &&& reason == DisconnectionReason::BeaconTimeout
            &&& transmission.length == 26
            &&& transmission.plcp_parameters.rate == TxPhyRate::Ofdm(6)
            &&& after[0] == 0xc0
            &&& after.subrange(4, 10) == bssid
            &&& after.subrange(10, 16) == own
            &&& after.subrange(16, 22) == bssid
            &&& after[24] == 3
        },
        !(watch.deadline matches Some(deadline) && deadline <= now) ==> action
            == ConnectionAction::Continue && after == before,
{
    deauthentication_bytes(bssid, own, true);
    let frame = deauthentication_frame(bssid, own, true);
    if watch.deadline matches Some(deadline) && deadline <= now {
        assert(after.subrange(4, 10) =~= frame.subrange(4, 10));
        assert(after.subrange(10, 16) =~= frame.subrange(10, 16));
        assert(after.subrange(16, 22) =~= frame.subrange(16, 22));
    }
}

/// After a connection has ended we are not connected, for the reason given, do not hold the channel and
/// do not receive from the network any longer. Other interfaces hold what they held.
pub proof fn ended_connections_leave_nothing_locked(
    before: (StaTxRx, SharedLMacState, RxInterface),
    after: (StaTxRx, SharedLMacState, RxInterface),
    config: ConnectionConfig,
    reason: DisconnectionReason,
    decision: ReconnectDecision,
)
    requires
        before.0.interface_control.interface < 4,
        connection_is_over(before, after, config, reason, decision),
    ensures
        after.0.connection_state.info() is None,
        after.0.connection_state.connection_state == ConnectionState::Disconnected(reason),
        after.0.connection_state.signaled,
        !after.1.channel_state.held_by(before.0.interface_control.interface as int),
        forall|i: int|
            0 <= i < 4 && i != before.0.interface_control.interface
                ==> #[trigger] after.1.channel_state.held_by(i) == before.1.channel_state.held_by(i),
        after.2.bssid_filter is None,
        after.2.receiver_address_filter == before.2.receiver_address_filter,
        after.0.phy_rate == TxPhyRate::Ofdm(6),
        decision == ReconnectDecision::Reconnect <==> config.automatic_reconnect && reason
            != DisconnectionReason::User,
{
}

/// A step without a response is tried again as often as configured: after as many timeouts it fails, and
/// not before. `steps` are the states after each timeout, and `actions` what comes then.
pub proof fn steps_are_retried_as_configured(
    retries: usize,
    steps: Seq<ConnectionStep>,
    actions: Seq<StepAction>,
    timeouts: int,
)
    requires
        1 <= timeouts <= actions.len(),
        steps.len() == actions.len() + 1,
        steps[0].attempts_left == retries,
        forall|i: int|
            0 <= i < actions.len() ==> (#[trigger] steps[i + 1]).has_timed_out(steps[i], actions[i]),
    ensures
        timeouts <= retries ==> actions[timeouts - 1] == StepAction::Transmit
            && steps[timeouts].attempts_left == retries - timeouts,
        timeouts > retries ==> actions[timeouts - 1] == StepAction::Fail(StaError::ResponseTimeout)
            && steps[timeouts].attempts_left == 0,
    decreases timeouts,
{
    if timeouts > 1 {
        steps_are_retried_as_configured(retries, steps, actions, timeouts - 1);
    }
    assert(steps[timeouts - 1 + 1].has_timed_out(steps[timeouts - 1], actions[timeouts - 1]));
}

/// A connection is begun unless there are no credentials for a network that is not open, or we are
/// connected to it already. Another network that we are connected to is left first, and told so.
pub proof fn other_networks_are_left_first(
    before: StaTxRx,
    after: StaTxRx,
    bss: BSS,
    credentials: Option<Credentials<'_>>,
    buffer: Seq<u8>,
    buffer_after: Seq<u8>,
    result: Result<ConnectDecision, StaError>,
)
    requires
        buffer.len() >= 26,
        connect_decided(before, after, bss, credentials, buffer, buffer_after, result),
    ensures
        bss.security_config != SecurityConfig::Open && credentials is None ==> (result matches Err(
            error,
        ) && error == StaError::NoCredentialsForNetwork) && after == before,
        bss.security_config == SecurityConfig::Open || credentials is Some ==> {
            &&& before.connection_state.info() is None ==> (result matches Ok(
                ConnectDecision::Proceed,
            )) && buffer_after == buffer && after.connection_state == before.connection_state
                && after.crypto_state == before.crypto_state
            &&& before.connection_state.info() matches Some(info) ==> {
                &&& info.bss.bssid@ == bss.bssid@ ==> (result matches Err(error) && error
                    == StaError::SameNetwork) && after == before && buffer_after == buffer
                &&& info.bss.bssid@ != bss.bssid@ ==> {
                    &&& result matches Ok(ConnectDecision::LeaveFirst(transmission))
                    &&& transmission.length == 26
                    &&& after.connection_state.info() is None
                    &&& buffer_after[0] == 0xc0
                    &&& buffer_after.subrange(4, 10) == info.bss.bssid@
                    &&& buffer_after.subrange(10, 16) == info.own_address@
                }
            }
        },
        result is Ok ==> after.phy_rate == TxPhyRate::Ofdm(6),
{
    broadcast use mac_address_extensional;

    if let Some(info) = before.connection_state.info() {
        deauthentication_bytes(info.bss.bssid@, info.own_address@, true);
        let frame = deauthentication_frame(info.bss.bssid@, info.own_address@, true);
        if buffer_after == overwrite(buffer, 0, frame) {
            assert(buffer_after.subrange(4, 10) =~= frame.subrange(4, 10));
            assert(buffer_after.subrange(10, 16) =~= frame.subrange(10, 16));
        }
    }
}

/// Who disconnects tells the access point, is not connected any longer, and does not hold the channel.
/// Without a connection there is nothing to do.
pub proof fn disconnecting_tells_the_network(
    before: StaTxRx,
    after: StaTxRx,
    state: SharedLMacState,
    state_after: SharedLMacState,
    buffer: Seq<u8>,
    buffer_after: Seq<u8>,
    result: Result<Transmission, StaError>,
)
    requires
        buffer.len() >= 26,
        before.interface_control.interface < 4,
        network_left(before, after, state, state_after, buffer, buffer_after, result),
    ensures
        before.connection_state.info() is None ==> {
            &&& result == Err::<Transmission, StaError>(StaError::NotConnected)
            &&& after == before
            &&& state_after == state
            &&& buffer_after == buffer
        },
        before.connection_state.info() matches Some(info) ==> {
            &&& result matches Ok(transmission)
            &&& transmission.length == 26
            &&& buffer_after[0] == 0xc0
            &&& buffer_after.subrange(4, 10) == info.bss.bssid@
            &&& buffer_after.subrange(10, 16) == info.own_address@
            &&& after.connection_state.info() is None
            &&& after.connection_state.connection_state == ConnectionState::Disconnected(
                DisconnectionReason::User,
            )
            &&& !state_after.channel_state.held_by(before.interface_control.interface as int)
            &&& state_after.key_slot_manager == state.key_slot_manager
        },
{
    if let Some(info) = before.connection_state.info() {
        deauthentication_bytes(info.bss.bssid@, info.own_address@, true);
        let frame = deauthentication_frame(info.bss.bssid@, info.own_address@, true);
        assert(buffer_after.subrange(4, 10) =~= frame.subrange(4, 10));
        assert(buffer_after.subrange(10, 16) =~= frame.subrange(10, 16));
    }
}

/// A connection with credentials to a network that is not open gets five slots that were free, all
/// different, and the master key of its credentials. Where that is not possible, no slot is taken.
pub proof fn protected_connections_get_their_keys(
    before: SharedLMacState,
    after: SharedLMacState,
    bss: BSS,
    credentials: Option<Credentials<'_>>,
    result: Result<Option<PreparedKeys>, StaError>,
)
    requires
        keys_prepared(before, after, bss, credentials, result),
    ensures
        after.channel_state == before.channel_state,
        bss.security_config == SecurityConfig::Open || credentials is None ==> (result matches Ok(
            None,
        )) && after == before,
        bss.security_config != SecurityConfig::Open && credentials is Some ==> !(result matches Ok(
            None,
        )),
        result matches Ok(Some(keys)) ==> {
            &&& forall|i: int|
                0 <= i < 4 ==> before.key_slot_manager.is_free(
                    (#[trigger] keys.gtk_key_slots@[i]).key_slot as int,
                ) && !after.key_slot_manager.is_free(keys.gtk_key_slots@[i].key_slot as int)
                    && keys.gtk_key_slots@[i].key_slot != keys.ptk_key_slot.key_slot
            &&& before.key_slot_manager.is_free(keys.ptk_key_slot.key_slot as int)
            &&& !after.key_slot_manager.is_free(keys.ptk_key_slot.key_slot as int)
            &&& forall|i: int, j: int|
                0 <= i < j < 4 ==> (#[trigger] keys.gtk_key_slots@[i]).key_slot != (
                #[trigger] keys.gtk_key_slots@[j]).key_slot
            &&& Some(keys.pmk@) == pmk_of(credentials->Some_0, bss.ssid@, 32)
        },
        result is Err ==> forall|slot: int|
            0 <= slot < KEY_SLOT_COUNT ==> after.key_slot_manager.is_free(slot)
                == before.key_slot_manager.is_free(slot),
        credentials matches Some(Credentials::PreSharedKey(psk)) && psk@.len() != 32
            && bss.security_config != SecurityConfig::Open ==> (result matches Err(error) && error
            == StaError::InvalidPskLength),
        credentials matches Some(Credentials::PreSharedKey(psk)) ==> (psk@.len() == 32
            && bss.security_config != SecurityConfig::Open && free_slots(
            before.key_slot_manager,
            KEY_SLOT_COUNT as int,
        ) >= 5 ==> (result matches Ok(Some(keys)) && keys.pmk@ == psk@)),
{
    if let Ok(Some(keys)) = result {
        assert forall|i: int|
            0 <= i < 4 implies before.key_slot_manager.is_free(
            (#[trigger] keys.gtk_key_slots@[i]).key_slot as int,
        ) && !after.key_slot_manager.is_free(keys.gtk_key_slots@[i].key_slot as int)
            && keys.gtk_key_slots@[i].key_slot != keys.ptk_key_slot.key_slot by {
            assert(keys.gtk_key_slots@[i].wf());
            assert(keys.uses(keys.gtk_key_slots@[i].key_slot as int));
        }
        assert(keys.uses(keys.ptk_key_slot.key_slot as int));
        assert(keys.ptk_key_slot.wf());
    }
}

/// When a protected connection stands, its keys are those that were negotiated, in the slots that were
/// prepared, and the radio has them. The slots of an earlier connection are free again. One without
/// keys changes neither.
pub proof fn connections_use_what_was_negotiated(
    keys: Option<PreparedKeys>,
    negotiated: Option<(SecurityAssociations, Message3Replay)>,
    bssid: [u8; 6],
    before: StaTxRx,
    after: StaTxRx,
    state: SharedLMacState,
    state_after: SharedLMacState,
)
    requires
        keys_in_use(keys, negotiated, bssid, before, after, state, state_after),
        keys is Some == negotiated is Some,
    ensures
        keys is None ==> after == before && state_after == state,
        keys matches Some(prepared) ==> {
            &&& after.crypto_state matches Some(crypto)
            &&& crypto.security_associations == negotiated->Some_0.0
            &&& crypto.message3_replay == negotiated->Some_0.1
            &&& crypto.ptk_key_slot == prepared.ptk_key_slot
            &&& crypto.gtk_key_slots == prepared.gtk_key_slots
            &&& crypto.last_group_message is None
            &&& after.connection_state == before.connection_state
            &&& state_after.key_slot_manager.commands@.len()
                == state.key_slot_manager.commands@.len() + if before.crypto_state is Some {
                7int
            } else {
                2
            }
            &&& (state_after.key_slot_manager.commands@[state.key_slot_manager.commands@.len() as int]
                matches KeyCommand::Install { key_slot, key_id, address, parameters, .. } && key_slot
                == prepared.ptk_key_slot.key_slot && key_id == 0 && address == bssid
                && parameters.key_type == KeyType::Pairwise)
            &&& before.crypto_state matches Some(previous) ==> forall|i: int|
                0 <= i < 4 && previous.gtk_key_slots@[i].key_slot < KEY_SLOT_COUNT
                    ==> state_after.key_slot_manager.is_free(
                    (#[trigger] previous.gtk_key_slots@[i]).key_slot as int,
                )
        },
{
    if let (Some(prepared), Some((associations, replay))) = (keys, negotiated) {
        let crypto = after.crypto_state->Some_0;
        let programmed = choose|programmed: Seq<KeyCommand>|
            {
                &&& #[trigger] keys_programmed(
                    state.key_slot_manager.commands@,
                    programmed,
                    crypto,
                    bssid,
                )
                &&& state_after.key_slot_manager.commands@ == match before.crypto_state {
                    Some(previous) => programmed + clear_commands(
                        previous.gtk_key_slots@,
                        previous.ptk_key_slot,
                    ),
                    None => programmed,
                }
            };
        let at = state.key_slot_manager.commands@.len() as int;
        assert(state_after.key_slot_manager.commands@[at] == programmed[at]);
        if let Some(previous) = before.crypto_state {
            assert forall|i: int|
                0 <= i < 4 && previous.gtk_key_slots@[i].key_slot < KEY_SLOT_COUNT implies
                state_after.key_slot_manager.is_free(
                (#[trigger] previous.gtk_key_slots@[i]).key_slot as int,
            ) by {
                assert(is_among(
                    previous.gtk_key_slots@[i].key_slot as int,
                    previous.gtk_key_slots@,
                    previous.ptk_key_slot,
                ));
            }
        }
    }
}

/// Who gives an attempt up leaves nothing behind: no filter, no lock of the channel, no operation of
/// the router, and no key slot, while everything of others stays.
pub proof fn attempts_leave_nothing_behind(
    attempt: ConnectionOperation,
    before: (SharedLMacState, StaRxRouter, RxInterface),
    after: (SharedLMacState, StaRxRouter, RxInterface),
)
    requires
        attempt.bringup_operation.interface < 4,
        attempt_given_up(attempt, before, after),
    ensures
        after.2.bssid_filter is None,
        after.2.receiver_address_filter is None,
        !after.0.channel_state.held_by(attempt.bringup_operation.interface as int),
        forall|i: int|
            0 <= i < 4 && i != attempt.bringup_operation.interface
                ==> #[trigger] after.0.channel_state.held_by(i)
                == before.0.channel_state.held_by(i),
        attempt.router_operation.router_queue is Foreground ==> {
            &&& after.1.foreground_queue_state.operation_state is None
            &&& after.1.background_queue_state.operation_state
                == before.1.background_queue_state.operation_state
        },
        attempt.router_operation.router_queue is Background ==> {
            &&& after.1.background_queue_state.operation_state is None
            &&& after.1.foreground_queue_state.operation_state
                == before.1.foreground_queue_state.operation_state
        },
        after.1.foreground_queue_state.queue == before.1.foreground_queue_state.queue,
        after.1.background_queue_state.queue == before.1.background_queue_state.queue,
        attempt.keys is None ==> after.0.key_slot_manager.commands@
            == before.0.key_slot_manager.commands@,
        attempt.keys matches Some(keys) ==> {
            let cleared = after.0.key_slot_manager.commands@.skip(
                before.0.key_slot_manager.commands@.len() as int,
            );
            &&& cleared.len() == 5
            &&& cleared[4] == (KeyCommand::Clear { key_slot: keys.ptk_key_slot.key_slot })
            &&& forall|i: int|
                0 <= i < 4 ==> #[trigger] cleared[i] == (KeyCommand::Clear {
                    key_slot: keys.gtk_key_slots@[i].key_slot,
                })
            &&& keys.ptk_key_slot.key_slot < KEY_SLOT_COUNT ==> after.0.key_slot_manager.is_free(
                keys.ptk_key_slot.key_slot as int,
            )
            &&& forall|i: int|
                0 <= i < 4 && (#[trigger] keys.gtk_key_slots@[i]).key_slot < KEY_SLOT_COUNT
                    ==> after.0.key_slot_manager.is_free(keys.gtk_key_slots@[i].key_slot as int)
        },
        forall|slot: int|
            0 <= slot < KEY_SLOT_COUNT && before.0.key_slot_manager.is_free(slot)
                ==> #[trigger] after.0.key_slot_manager.is_free(slot),
{
    if let Some(keys) = attempt.keys {
        all_slots_of_a_connection_are_cleared(keys.gtk_key_slots@, keys.ptk_key_slot);
        let commands = before.0.key_slot_manager.commands@;
        let cleared = clear_commands(keys.gtk_key_slots@, keys.ptk_key_slot);
        assert((commands + cleared).skip(commands.len() as int) =~= cleared);
        assert forall|i: int|
            0 <= i < 4 && (#[trigger] keys.gtk_key_slots@[i]).key_slot
                < KEY_SLOT_COUNT implies after.0.key_slot_manager.is_free(
            keys.gtk_key_slots@[i].key_slot as int,
        ) by {
            assert(keys.uses(keys.gtk_key_slots@[i].key_slot as int));
        }
        assert(keys.uses(keys.ptk_key_slot.key_slot as int));
    }
}

/// A connection that is established is signaled with its network, our address and the identifier that
/// the network gave us. Unless it was asked for otherwise it reconnects by itself, tries each step four
/// times for 100 ms, and is lost after three seconds without a beacon.
pub proof fn established_connections_are_signaled(
    before: StaTxRx,
    after: StaTxRx,
    bss: BSS,
    own_address: MACAddress,
    config: Option<ConnectionConfig>,
    aid: u16,
)
    requires
        connection_noted(before, after, bss, own_address, config, aid),
    ensures
        after.connection_state.signaled,
        after.connection_state.info() is Some,
        ({
            let info = after.connection_state.info()->Some_0;
            &&& info.bss == bss
            &&& info.own_address == own_address
            &&& info.aid == aid
            &&& config matches Some(config) ==> info.connection_config == config
            &&& config is None ==> {
                &&& info.connection_config.automatic_reconnect
                &&& info.connection_config.handshake_retries == 4
                &&& info.connection_config.handshake_timeout == 100_000
                &&& info.connection_config.beacon_timeout == Some(3_000_000u64)
            }
        }),
        after.crypto_state == before.crypto_state,
        after.phy_rate == before.phy_rate,
{
}

/// An attempt with keys does not stand once the access point has accepted the association: the
/// handshake comes first, and its key frames are awaited. Only one without keys stands at once.
pub proof fn attempts_with_keys_need_the_handshake(
    attempt: ConnectionOperation,
    before: StaRxRouter,
    after: StaRxRouter,
    phase: ConnectionPhase,
    response: Seq<u8>,
    own_address: MACAddress,
    result: Result<ConnectionPhase, StaError>,
)
    requires
        attempt_continued(attempt, before, after, phase, response, own_address, result),
        phase is Authenticating || phase is Associating,
    ensures
        attempt.keys is Some ==> !(result matches Ok(ConnectionPhase::Established(_))),
        attempt.keys is None ==> !(result matches Ok(ConnectionPhase::Handshaking(_))),
        phase is Associating && management_bytes(response, 6) && field_bytes(response, 2) == 0 && 1
            <= field_bytes(response, 4) % 0x4000 <= 2007 ==> {
            let aid = (field_bytes(response, 4) % 0x4000) as u16;
            let queue = attempt.router_operation.router_queue;
            &&& attempt.keys is Some ==> {
                &&& result == Ok::<ConnectionPhase, StaError>(ConnectionPhase::Handshaking(aid))
                &&& after.state(queue).operation_state == Some(
                    StaRxRouterOperation::CryptoHandshake { own_address },
                )
            }
            &&& attempt.keys is None ==> result == Ok::<ConnectionPhase, StaError>(
                ConnectionPhase::Established(aid),
            )
        },
        phase is Authenticating && management_bytes(response, 6) && field_bytes(response, 4) == 0
            ==> {
            &&& result == Ok::<ConnectionPhase, StaError>(ConnectionPhase::Associating)
            &&& after.state(attempt.router_operation.router_queue).operation_state == Some(
                StaRxRouterOperation::Associating { own_address },
            )
        },
        after.foreground_queue_state.queue == before.foreground_queue_state.queue,
        after.background_queue_state.queue == before.background_queue_state.queue,
{
    let queue = attempt.router_operation.router_queue;
    let protected = attempt.keys is Some;
    let from = before.state(queue).operation_state;
    let to = after.state(queue).operation_state;
    no_step_of_a_connection_is_skipped(phase, response, protected, own_address, from, to, result);
    if management_bytes(response, 6) {
        if phase is Authenticating {
            authentication_leads_to_association(response, protected, own_address, from, to, result);
        } else if field_bytes(response, 4) == 0 || 1 <= field_bytes(response, 4) % 0x4000 <= 2007 {
            association_leads_to_the_handshake(response, protected, own_address, from, to, result);
        }
    }
}

/// An attempt that succeeds leaves the channel locked and its operation ended. One with keys is
/// protected by those that were negotiated, in its own slots; one without changes no keys.
pub proof fn completed_attempts_are_protected(
    attempt: ConnectionOperation,
    before: (StaTxRx, SharedLMacState, StaRxRouter),
    after: (StaTxRx, SharedLMacState, StaRxRouter),
    bssid: MACAddress,
    negotiated: Option<(SecurityAssociations, Message3Replay)>,
)
    requires
        attempt_completed(attempt, before, after, bssid, negotiated),
        attempt.keys is Some == negotiated is Some,
    ensures
        after.1.channel_state == before.1.channel_state,
        attempt.router_operation.router_queue is Foreground
            ==> after.2.foreground_queue_state.operation_state is None,
        attempt.router_operation.router_queue is Background
            ==> after.2.background_queue_state.operation_state is None,
        attempt.keys is None ==> after.0 == before.0 && after.1 == before.1,
        attempt.keys matches Some(keys) ==> {
            &&& after.0.crypto_state matches Some(crypto)
            &&& crypto.security_associations == negotiated->Some_0.0
            &&& crypto.message3_replay == negotiated->Some_0.1
            &&& crypto.ptk_key_slot == keys.ptk_key_slot
            &&& crypto.gtk_key_slots == keys.gtk_key_slots
            &&& (after.1.key_slot_manager.commands@[before.1.key_slot_manager.commands@.len() as int]
                matches KeyCommand::Install { key_slot, address, .. } && key_slot
                == keys.ptk_key_slot.key_slot && address == bssid.0)
        },
{
    connections_use_what_was_negotiated(
        attempt.keys,
        negotiated,
        bssid.0,
        before.0,
        after.0,
        before.1,
        after.1,
    );
}

} // verus!

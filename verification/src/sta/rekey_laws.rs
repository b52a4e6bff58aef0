//! What a connection promises for key frames that arrive after the handshake, over their bytes.
use vstd::prelude::*;

use crate::bytes::{
    be_value, le_bytes, le_value, lemma_be_value_is_injective, lemma_be_value_pair,
    lemma_le_round_trip, overwrite, pow256,
};
use crate::eapol::{
    eapol_frame, eapol_mic, envelope, key_frame_layout, unwrapped_key_data, EapolKeyFields,
    EAPOL_LLC,
};
use crate::elements::first_gtk;
use crate::frame::{
    body_offset, crypto_header, data_header_length, has_flag, wire_packet_number, FLAG_PROTECTED,
};
use crate::lmac::crypto::{KeyCommand, KeyType};
use crate::sta::operations::handshake::{
    group_message_fields, protected_key_frame_sent, GROUP_MESSAGE_2_INFORMATION,
    GROUP_REQUEST_INFORMATION,
};
use crate::sta::control::group_key_requested;
use crate::sta::operations::handshake::message_4_fields;
use crate::sta::operations::handshake_laws::{
    answers, body_at, counter_bytes, frame_mic, key_data_bytes, key_frame_bytes,
    lemma_key_frame_bytes, message_3_bytes, mic_bytes,
};
use crate::sta::rsn::CryptoState;
use crate::sta::rsn_group::{normalizable, normalized, with_crypto_header, GroupMessage1};
use crate::sta::runner::{
    eapol_answered, eapol_handled, eapol_noted, group_message_answered, is_retry_of_connection,
    key_parts, EapolReply,
};
use crate::sta::{StaError, StaTxRx};
use crate::util::operations::deauth::Transmission;

verus! {

/// Whether `frame` is the key frame `clear` as the radio hands it over where it was protected: with the
/// protected flag set, and with the CCMP header `header` for the pairwise key behind the MAC header.
pub open spec fn is_protected_form(frame: Seq<u8>, clear: Seq<u8>, header: Seq<u8>) -> bool {
    &&& header.len() == 8
    &&& header[2] == 0
    &&& header[3] == 0x20
    &&& frame == clear.subrange(0, body_at(clear)).update(
        1,
        if clear[1] == 0x02 {
            0x42
        } else {
            0x4a
        },
    ) + header + clear.subrange(body_at(clear), clear.len() as int)
}

/// Whether `frame` is the key frame `clear`, as it is or protected with a packet number that is larger
/// than all that came before under the pairwise key.
pub open spec fn arrives_as(
    frame: Seq<u8>,
    clear: Seq<u8>,
    header: Seq<u8>,
    sta_tx_rx: StaTxRx,
) -> bool {
    frame == clear || is_protected_form(frame, clear, header) && header_packet_number(header)
        > sta_tx_rx.crypto_state->Some_0.security_associations.ptksa.replay_counter
}

/// The packet number in a CCMP header.
pub open spec fn header_packet_number(header: Seq<u8>) -> nat {
    le_value(seq![header[0], header[1], header[4], header[5], header[6], header[7]])
}

/// A key frame is the same without protection, and where its protection is taken off.
pub proof fn protection_of_key_frames_is_taken_off(
    frame: Seq<u8>,
    clear: Seq<u8>,
    header: Seq<u8>,
    own: Seq<u8>,
    bssid: Seq<u8>,
    information: int,
)
    requires
        key_frame_bytes(clear, own, bssid, information),
    ensures
        normalizable(clear, own, bssid),
        normalized(clear) == clear,
        !has_flag(clear, FLAG_PROTECTED),
        is_protected_form(frame, clear, header) ==> {
            &&& normalizable(frame, own, bssid)
            &&& normalized(frame) == clear
            &&& has_flag(frame, FLAG_PROTECTED)
            &&& wire_packet_number(frame, data_header_length(frame)) == header_packet_number(header)
        },
{
    lemma_key_frame_bytes(clear, own, bssid, information);
    assert((0x08u8 >> 2) & 3 == 2 && 0x08u8 >> 4 == 0 && (0x88u8 >> 2) & 3 == 2 && 0x88u8 >> 4 == 8
        && 0x42u8 & 0x01 == 0 && 0x42u8 & 0x02 != 0
        && 0x42u8 & 0x40 != 0 && 0x42u8 & 0x80 == 0 && 0x4au8 & 0x01 == 0 && 0x4au8 & 0x02 != 0
        && 0x4au8 & 0x40 != 0 && 0x4au8 & 0x80 == 0 && 0x42u8 & !0x40u8 == 0x02 && 0x4au8 & !0x40u8
        == 0x0a && 0x02u8 & 0x40 == 0 && 0x0au8 & 0x40 == 0) by (bit_vector);
    let at = body_at(clear);
    let body = clear.subrange(at, clear.len() as int);
    assert(EAPOL_LLC@ =~= seq![0xaau8, 0xaa, 3, 0, 0, 0, 0x88, 0x8e]);
    assert(body.subrange(0, 8) =~= clear.subrange(at, at + 8));
    assert(body[9] == clear[at + 9]);
    assert(body_offset(clear) == at);
    if is_protected_form(frame, clear, header) {
        assert(frame[0] == clear[0]);
        assert(data_header_length(frame) == at);
        assert(body_offset(frame) == at + 8);
        assert(at == 26 ==> frame[24] == clear[24]);
        assert(frame.subrange(4, 10) =~= clear.subrange(4, 10));
        assert(frame.subrange(10, 16) =~= clear.subrange(10, 16));
        assert(frame.subrange(at + 8, frame.len() as int) =~= body);
        assert(frame[at + 2] == header[2] && frame[at + 3] == header[3]);
        assert(frame.subrange(at, at + 2) + frame.subrange(at + 4, at + 8) =~= seq![
            header[0],
            header[1],
            header[4],
            header[5],
            header[6],
            header[7],
        ]);
        assert(normalized(frame) =~= clear);
    }
}

/// Whether the keys of a connection are those of WPA2-PSK with CCMP.
pub open spec fn has_wpa2_keys(sta_tx_rx: StaTxRx) -> bool {
    &&& sta_tx_rx.crypto_state matches Some(state)
    &&& state.security_associations.akm_suite == 0x02ac_0f00
    &&& state.security_associations.cipher_suite == 0x04ac_0f00
    &&& state.wf()
}

/// The parts of the pairwise key stand one after the other.
proof fn lemma_key_parts(state: CryptoState)
    requires
        state.security_associations.akm_suite == 0x02ac_0f00,
        state.security_associations.cipher_suite == 0x04ac_0f00,
    ensures
        key_parts(state).0 == state.security_associations.ptksa.key@.subrange(0, 16),
        key_parts(state).1 == state.security_associations.ptksa.key@.subrange(16, 32),
        key_parts(state).2 == state.security_associations.ptksa.key@.subrange(32, 48),
{
}

/// A repeated message 3 that is authentic and brings the active group key again is answered by message
/// 4 with its replay counter and our nonce, whether it arrives protected or not. No key, packet number
/// to send or key slot changes.
pub proof fn repeated_message_3_is_answered(
    before: StaTxRx,
    after: StaTxRx,
    frame: Seq<u8>,
    clear: Seq<u8>,
    header: Seq<u8>,
    scratch: nat,
    own: Seq<u8>,
    bssid: Seq<u8>,
    buffer: Seq<u8>,
    commands_before: Seq<KeyCommand>,
    commands_after: Seq<KeyCommand>,
    reply: EapolReply,
)
    requires
        own.len() == 6,
        bssid.len() == 6,
        buffer.len() >= 147,
        has_wpa2_keys(before),
        arrives_as(frame, clear, header, before),
        ({
            let state = before.crypto_state->Some_0;
            let keys = state.security_associations;
            message_3_bytes(
                clear,
                scratch,
                own,
                bssid,
                keys.ptksa.key@,
                state.message3_replay.authenticator_nonce@,
                state.message3_replay.replay_counter,
                keys.active_group_id,
                keys.group_keys@[keys.active_group_id as int]->Some_0.key@,
            )
        }),
        eapol_handled(
            before,
            after,
            frame,
            scratch,
            own,
            bssid,
            buffer,
            commands_before,
            commands_after,
            reply,
        ),
    ensures
        reply matches EapolReply::Message4(transmission) && {
            &&& transmission.length == 131
            &&& transmission.mac_parameters.key_slot_index is None
            &&& transmission.plcp_parameters.rate == before.phy_rate
        },
        answers(
            buffer.subrange(0, 131),
            clear,
            own,
            bssid,
            0x030a,
            before.crypto_state->Some_0.message3_replay.supplicant_nonce@,
            before.crypto_state->Some_0.security_associations.ptksa.key@,
        ),
        commands_after == commands_before,
        after.crypto_state matches Some(state) && {
            let old_keys = before.crypto_state->Some_0.security_associations;
            &&& state.security_associations.group_keys == old_keys.group_keys
            &&& state.security_associations.active_group_id == old_keys.active_group_id
            &&& state.security_associations.ptksa.key == old_keys.ptksa.key
            &&& state.security_associations.ptksa.packet_number == old_keys.ptksa.packet_number
            &&& state.security_associations.ptksa.replay_counter == if frame == clear {
                old_keys.ptksa.replay_counter as nat
            } else {
                header_packet_number(header)
            }
            &&& state.ptk_key_slot == before.crypto_state->Some_0.ptk_key_slot
            &&& state.gtk_key_slots == before.crypto_state->Some_0.gtk_key_slots
            &&& state.message3_replay.replay_counter == be_value(counter_bytes(clear))
            &&& state.message3_replay.authenticator_nonce
                == before.crypto_state->Some_0.message3_replay.authenticator_nonce
        },
        after.connection_state == before.connection_state,
{
    let state = before.crypto_state->Some_0;
    lemma_key_frame_bytes(clear, own, bssid, 0x13ca);
    protection_of_key_frames_is_taken_off(frame, clear, header, own, bssid, 0x13ca);
    lemma_key_parts(state);
    if frame != clear {
        lemma_packet_number_bound(header);
    }
    let kck = state.security_associations.ptksa.key@.subrange(0, 16);
    let (noted, commands) = choose|noted: StaTxRx, commands: Seq<KeyCommand>|
        {
            &&& eapol_noted(before, noted, frame)
            &&& commands_after == commands_before + commands
            &&& #[trigger] eapol_answered(
                noted,
                after,
                clear,
                scratch,
                own,
                bssid,
                buffer,
                commands,
                reply,
            )
        };
    let noted_state = noted.crypto_state->Some_0;
    lemma_key_parts(noted_state);
    assert(noted_state.security_associations.ptksa.key == state.security_associations.ptksa.key);
    assert(is_retry_of_connection(noted_state, clear, scratch, own, bssid));
    assert(commands_before + commands =~= commands_before);
    let sent = buffer.subrange(0, 131);
    let fields = message_4_fields(
        state.message3_replay.supplicant_nonce,
        be_value(counter_bytes(clear)) as u64,
    );
    key_frame_layout(bssid, own, fields, Seq::<u8>::empty(), kck);
    lemma_be_value_pair(sent.subrange(37, 39));
    lemma_be_value_pair(sent.subrange(39, 41));
    lemma_be_value_is_injective(sent.subrange(41, 49), envelope(clear).subrange(9, 17));
}

/// Whether `frame` is group message 1 for the pairwise key `ptk`, byte by byte. It brings the group key
/// `gtk` under the identifier `gtk_id`.
pub open spec fn group_message_1_bytes(
    frame: Seq<u8>,
    scratch: nat,
    own: Seq<u8>,
    bssid: Seq<u8>,
    ptk: Seq<u8>,
    gtk_id: u8,
    gtk: Seq<u8>,
) -> bool {
    &&& key_frame_bytes(frame, own, bssid, 0x1382)
    &&& mic_bytes(frame) == frame_mic(ptk, frame)
    &&& key_data_bytes(frame).len() >= 24
    &&& key_data_bytes(frame).len() % 8 == 0
    &&& key_data_bytes(frame).len() - 8 <= scratch
    &&& frame[body_at(frame) + 79] == 0
    &&& frame[body_at(frame) + 80] == 0
    &&& unwrapped_key_data(ptk.subrange(16, 32), key_data_bytes(frame)) matches
        Some(plain) && first_gtk(plain) == Some((gtk_id, gtk))
    &&& gtk.len() == 16
}

/// Whether a buffer starts with a key frame of the group key handshake, protected by the pairwise key
/// `ptk` with the packet number `number`: it goes to the access point, with the given key information
/// and replay counter.
pub open spec fn group_frame_bytes(
    buffer: Seq<u8>,
    information: int,
    counter: int,
    own: Seq<u8>,
    bssid: Seq<u8>,
    ptk: Seq<u8>,
    number: u64,
) -> bool {
    let body = buffer.subrange(40, 139);
    &&& buffer[0] == 0x08
    &&& buffer[1] == 0x41
    &&& buffer.subrange(4, 10) == bssid
    &&& buffer.subrange(10, 16) == own
    &&& buffer.subrange(16, 22) == bssid
    &&& header_packet_number(buffer.subrange(24, 32)) == number
    &&& buffer[27] == 0x20
    &&& buffer.subrange(32, 40) == seq![0xaau8, 0xaa, 3, 0, 0, 0, 0x88, 0x8e]
    &&& body[5] * 256 + body[6] == information
    &&& be_value(body.subrange(9, 17)) == counter
    &&& body.subrange(81, 97) == eapol_mic(
        ptk.subrange(0, 16),
        overwrite(body, 81, Seq::new(16, |i: int| 0u8)),
    )
    &&& buffer.subrange(139, 147) == Seq::new(8, |i: int| 0u8)
}

/// A key frame of the group key handshake is protected by the pairwise key: it is encrypted with the
/// key in the slot of that, takes the next packet number, and has the key information and the replay
/// counter that it was made for.
pub proof fn group_frames_are_protected(
    accepted: StaTxRx,
    after: StaTxRx,
    buffer: Seq<u8>,
    bssid: Seq<u8>,
    own: Seq<u8>,
    information: u16,
    counter: u64,
    result: Result<Transmission, StaError>,
)
    requires
        own.len() == 6,
        bssid.len() == 6,
        buffer.len() >= 147,
        accepted.crypto_state is Some,
        0 < accepted.crypto_state->Some_0.security_associations.ptksa.packet_number
            < 0x1_0000_0000_0000,
        protected_key_frame_sent(
            accepted,
            after,
            buffer,
            bssid,
            own,
            accepted.crypto_state->Some_0.security_associations.ptksa.key@.subrange(0, 16),
            information,
            counter,
            result,
        ),
    ensures
        group_frame_bytes(
            buffer,
            information as int,
            counter as int,
            own,
            bssid,
            accepted.crypto_state->Some_0.security_associations.ptksa.key@,
            accepted.crypto_state->Some_0.security_associations.ptksa.packet_number,
        ),
        result matches Ok(transmission) && {
            &&& transmission.length == 147
            &&& transmission.mac_parameters.key_slot_index == Some(
                accepted.crypto_state->Some_0.ptk_key_slot.key_slot,
            )
        },
{
    let keys = accepted.crypto_state->Some_0.security_associations;
    let number = keys.ptksa.packet_number;
    let kck = keys.ptksa.key@.subrange(0, 16);
    let fields = choose|fields: EapolKeyFields|
        {
            &&& group_message_fields(fields, information, counter)
            &&& buffer.subrange(0, 147) == with_crypto_header(
                #[trigger] eapol_frame(bssid, own, fields, Seq::<u8>::empty(), kck),
                number,
            ) + Seq::new(8, |i: int| 0u8)
        };
    let plain = eapol_frame(bssid, own, fields, Seq::<u8>::empty(), kck);
    let sent = buffer.subrange(0, 147);
    reveal_with_fuel(pow256, 7);
    lemma_le_round_trip(number as nat, 6);
    assert(plain[0] == 0x08 && plain[1] == 0x01);
    assert(0x08u8 >> 4 == 0 && 0x01u8 & 0x02 == 0 && 0x01u8 & 0x80 == 0 && 0x01u8 | 0x40 == 0x41
        && 0x20u8 | (0u8 << 6) == 0x20) by (bit_vector);
    assert(data_header_length(plain) == 24);
    assert(crypto_header(number, 0).len() == 8);
    assert(with_crypto_header(plain, number).len() == plain.len() + 8);
    assert(sent.len() == 147);
    assert(sent.len() == with_crypto_header(plain, number).len() + 8);
    key_frame_layout(bssid, own, fields, Seq::<u8>::empty(), kck);
    assert(sent.subrange(4, 10) =~= plain.subrange(4, 10));
    assert(sent.subrange(10, 16) =~= plain.subrange(10, 16));
    assert(sent.subrange(16, 22) =~= plain.subrange(16, 22));
    assert(buffer.subrange(4, 10) =~= sent.subrange(4, 10));
    assert(buffer.subrange(10, 16) =~= sent.subrange(10, 16));
    assert(buffer.subrange(16, 22) =~= sent.subrange(16, 22));
    assert(buffer[0] == sent[0] && buffer[1] == sent[1]);
    let header = buffer.subrange(24, 32);
    assert(header =~= sent.subrange(24, 32));
    assert(header =~= crypto_header(number, 0));
    assert(buffer[27] == header[3]);
    assert(seq![header[0], header[1], header[4], header[5], header[6], header[7]] =~= le_bytes(
        number as nat,
        6,
    ));
    assert(buffer.subrange(32, 40) =~= plain.subrange(24, 32)) by {
        assert(buffer.subrange(32, 40) =~= sent.subrange(32, 40));
    }
    let body = buffer.subrange(40, 139);
    assert(body =~= sent.subrange(40, 139));
    assert(body =~= plain.subrange(32, 131));
    assert(body.subrange(5, 7) =~= plain.subrange(37, 39));
    lemma_be_value_pair(body.subrange(5, 7));
    assert(body.subrange(9, 17) =~= plain.subrange(41, 49));
    assert(body.subrange(81, 97) =~= plain.subrange(113, 129));
    assert(buffer.subrange(139, 147) =~= sent.subrange(139, 147));
    assert(buffer.subrange(139, 147) =~= Seq::new(8, |i: int| 0u8));
}

/// An authentic group message 1 with a new counter, protected or not, is answered by group message 2
/// with its counter, which is always protected by the pairwise key. From then on the group key that it
/// brings is the active one. A key that was not there is put into the key slot of its identifier, and
/// taken into use from the packet number that the message tells; one that was there already keeps its
/// slot and its packet number. The other group keys stay.
pub proof fn group_message_1_is_answered(
    before: StaTxRx,
    after: StaTxRx,
    frame: Seq<u8>,
    clear: Seq<u8>,
    header: Seq<u8>,
    scratch: nat,
    own: Seq<u8>,
    bssid: Seq<u8>,
    buffer: Seq<u8>,
    commands_before: Seq<KeyCommand>,
    commands_after: Seq<KeyCommand>,
    reply: EapolReply,
    gtk_id: u8,
    gtk: Seq<u8>,
)
    requires
        own.len() == 6,
        bssid.len() == 6,
        buffer.len() >= 147,
        has_wpa2_keys(before),
        arrives_as(frame, clear, header, before),
        gtk_id < 4,
        group_message_1_bytes(
            clear,
            scratch,
            own,
            bssid,
            before.crypto_state->Some_0.security_associations.ptksa.key@,
            gtk_id,
            gtk,
        ),
        be_value(counter_bytes(clear))
            > before.crypto_state->Some_0.message3_replay.replay_counter,
        0 < before.crypto_state->Some_0.security_associations.ptksa.packet_number
            < 0x1_0000_0000_0000,
        forall|id: int|
            0 <= id < 4 && id != gtk_id
                ==> !((#[trigger] before.crypto_state->Some_0.security_associations.group_keys@[id])
                matches Some(known) && known.key@ == gtk),
        eapol_handled(
            before,
            after,
            frame,
            scratch,
            own,
            bssid,
            buffer,
            commands_before,
            commands_after,
            reply,
        ),
    ensures
        reply matches EapolReply::GroupMessage2(Ok(transmission)) && {
            &&& transmission.length == 147
            &&& transmission.mac_parameters.key_slot_index == Some(
                before.crypto_state->Some_0.ptk_key_slot.key_slot,
            )
        },
        group_frame_bytes(
            buffer,
            0x0302,
            be_value(counter_bytes(clear)) as int,
            own,
            bssid,
            before.crypto_state->Some_0.security_associations.ptksa.key@,
            before.crypto_state->Some_0.security_associations.ptksa.packet_number,
        ),
        after.crypto_state matches Some(state) && {
            let old_keys = before.crypto_state->Some_0.security_associations;
            let new_keys = state.security_associations;
            let known = old_keys.group_keys@[gtk_id as int] matches Some(known) && known.key@ == gtk;
            &&& new_keys.active_group_id == gtk_id
            &&& new_keys.group_keys@[gtk_id as int] matches Some(group)
            &&& group.key@ == gtk
            &&& group.key_id == gtk_id
            &&& if known {
                new_keys.group_keys@ == old_keys.group_keys@
            } else {
                group.replay_counter == le_value(
                    clear.subrange(body_at(clear) + 73, body_at(clear) + 79),
                )
            }
            &&& forall|id: int|
                0 <= id < 4 && id != gtk_id ==> #[trigger] new_keys.group_keys@[id]
                    == old_keys.group_keys@[id]
            &&& new_keys.ptksa.key == old_keys.ptksa.key
            &&& new_keys.ptksa.packet_number == old_keys.ptksa.packet_number + 1
            &&& new_keys.ptksa.replay_counter == if frame == clear {
                old_keys.ptksa.replay_counter as nat
            } else {
                header_packet_number(header)
            }
            &&& state.message3_replay.replay_counter == be_value(counter_bytes(clear))
            &&& if known {
                commands_after == commands_before
            } else {
                &&& commands_after.len() == commands_before.len() + 1
                &&& commands_after.drop_last() == commands_before
                &&& commands_after.last() matches KeyCommand::Install {
                    key_slot,
                    interface,
                    key_id,
                    address,
                    parameters,
                }
                &&& key_slot == before.crypto_state->Some_0.gtk_key_slots@[gtk_id as int].key_slot
                &&& key_id == gtk_id
                &&& address@ == bssid
                &&& parameters.key@ == gtk
                &&& parameters.key_type == KeyType::Group
            }
        },
{
    let state = before.crypto_state->Some_0;
    let keys = state.security_associations;
    lemma_key_frame_bytes(clear, own, bssid, 0x1382);
    protection_of_key_frames_is_taken_off(frame, clear, header, own, bssid, 0x1382);
    lemma_key_parts(state);
    if frame != clear {
        lemma_packet_number_bound(header);
    }
    let kck = keys.ptksa.key@.subrange(0, 16);
    let kek = keys.ptksa.key@.subrange(16, 32);
    let (noted, commands) = choose|noted: StaTxRx, commands: Seq<KeyCommand>|
        {
            &&& eapol_noted(before, noted, frame)
            &&& commands_after == commands_before + commands
            &&& #[trigger] eapol_answered(
                noted,
                after,
                clear,
                scratch,
                own,
                bssid,
                buffer,
                commands,
                reply,
            )
        };
    let noted_state = noted.crypto_state->Some_0;
    lemma_key_parts(noted_state);
    assert(noted_state.security_associations.ptksa.key == keys.ptksa.key);
    let contents = envelope(clear);
    let at = body_at(clear) + 8;
    assert(contents[71] == clear[at + 71] && contents[72] == clear[at + 72]);
    let message = choose|message: GroupMessage1|
        {
            &&& #[trigger] message.read_from(clear, kck, kek)
            &&& group_message_answered(
                noted,
                after,
                message,
                own,
                bssid,
                kck,
                buffer,
                commands,
                reply,
            )
        };
    assert(message.key@ == gtk && message.key_id == gtk_id);
    assert(contents.subrange(65, 71) =~= clear.subrange(at + 65, at + 71));
    assert forall|other: int| other != message.key_id implies
        !noted_state.security_associations.has_group_key(other, message.key@) by {
        if 0 <= other < 4 {
            assert(noted_state.security_associations.group_keys@[other] == keys.group_keys@[other]);
        }
    }
    assert(noted_state.security_associations.group_keys@ == keys.group_keys@);
    assert(!(noted_state.group_message_outcome(message) is Ignored));
    let accepted = choose|accepted: StaTxRx|
        {
            &&& accepted == (StaTxRx { crypto_state: accepted.crypto_state, ..noted })
            &&& accepted.crypto_state is Some
            &&& accepted.crypto_state->Some_0.is_after_group_message(noted_state, message)
            &&& #[trigger] protected_key_frame_sent(
                accepted,
                after,
                buffer,
                bssid,
                own,
                kck,
                GROUP_MESSAGE_2_INFORMATION,
                message.counter,
                reply->GroupMessage2_0,
            )
        };
    group_frames_are_protected(
        accepted,
        after,
        buffer,
        bssid,
        own,
        GROUP_MESSAGE_2_INFORMATION,
        message.counter,
        reply->GroupMessage2_0,
    );
    assert(commands_before + commands =~= if commands.len() == 0 {
        commands_before
    } else {
        commands_before + commands
    });
    if commands.len() == 1 {
        assert(commands_after.drop_last() =~= commands_before);
    }
}

/// A packet number has 48 bits.
proof fn lemma_packet_number_bound(header: Seq<u8>)
    requires
        header.len() == 8,
    ensures
        header_packet_number(header) < 0x1_0000_0000_0000,
{
    let bytes = seq![header[0], header[1], header[4], header[5], header[6], header[7]];
    reveal_with_fuel(pow256, 7);
    reveal_with_fuel(le_value, 7);
    let a = bytes.drop_first();
    let b = a.drop_first();
    let c = b.drop_first();
    let d = c.drop_first();
    let e = d.drop_first();
    assert(e.drop_first() =~= Seq::<u8>::empty());
    assert(le_value(e) < 256);
    assert(le_value(d) < 256 * 256);
    assert(le_value(c) < 256 * 256 * 256);
}

/// A key frame that was protected with an old packet number, that does not come from the access point
/// for us, or that arrives while there are no keys, leads to nothing.
pub proof fn foreign_and_replayed_key_frames_change_nothing(
    before: StaTxRx,
    after: StaTxRx,
    frame: Seq<u8>,
    clear: Seq<u8>,
    header: Seq<u8>,
    information: int,
    scratch: nat,
    own: Seq<u8>,
    bssid: Seq<u8>,
    sender: Seq<u8>,
    receiver: Seq<u8>,
    buffer: Seq<u8>,
    commands_before: Seq<KeyCommand>,
    commands_after: Seq<KeyCommand>,
    reply: EapolReply,
)
    requires
        key_frame_bytes(clear, receiver, sender, information),
        is_protected_form(frame, clear, header),
        sender != bssid || receiver != own || before.crypto_state is None || header_packet_number(
            header,
        ) <= before.crypto_state->Some_0.security_associations.ptksa.replay_counter,
        eapol_handled(
            before,
            after,
            frame,
            scratch,
            own,
            bssid,
            buffer,
            commands_before,
            commands_after,
            reply,
        ),
    ensures
        reply is Nothing,
        after == before,
        commands_after == commands_before,
{
    lemma_packet_number_bound(header);
    protection_of_key_frames_is_taken_off(frame, clear, header, receiver, sender, information);
    assert(frame.subrange(4, 10) =~= clear.subrange(4, 10));
    assert(frame.subrange(10, 16) =~= clear.subrange(10, 16));
}

/// Group messages that are not newer than what was accepted last change nothing, but for the last one
/// itself, which is acknowledged again. One that brings a key that is known under another identifier
/// is refused, however new it is.
pub proof fn old_and_moved_group_keys_are_refused(
    before: CryptoState,
    after: CryptoState,
    message: GroupMessage1,
    bssid: [u8; 6],
)
    requires
        after.is_after_group_message(before, message),
    ensures
        message.counter <= before.message3_replay.replay_counter ==> after == before
            && before.group_message_commands(message, bssid).len() == 0,
        (exists|id: int|
            0 <= id < 4 && id != message.key_id
                && (#[trigger] before.security_associations.group_keys@[id] matches Some(known)
                && known.key@ == message.key@)) ==> after == before
            && before.group_message_commands(message, bssid).len() == 0,
        after.security_associations.ptksa == before.security_associations.ptksa,
        after.message3_replay.replay_counter >= before.message3_replay.replay_counter,
        message.counter == before.message3_replay.replay_counter ==> (before.group_message_outcome(
            message,
        ) is Repeated <==> before.last_group_message == Some(message)),
        message.counter < before.message3_replay.replay_counter ==> before.group_message_outcome(
            message,
        ) is Ignored,
{
    if exists|id: int|
        0 <= id < 4 && id != message.key_id
            && (#[trigger] before.security_associations.group_keys@[id] matches Some(known)
            && known.key@ == message.key@) {
        let id = choose|id: int|
            0 <= id < 4 && id != message.key_id
                && (#[trigger] before.security_associations.group_keys@[id] matches Some(known)
                && known.key@ == message.key@);
        assert(before.security_associations.has_group_key(id, message.key@));
    }
}

/// What asks the access point for a group key says that it is a request.
pub proof fn requests_ask_for_a_group_key()
    ensures
        GROUP_REQUEST_INFORMATION == 0x0b02,
        GROUP_MESSAGE_2_INFORMATION == 0x0302,
{
}

/// A protected key frame whose CCMP header names another key than the pairwise one, or has reserved bits
/// set, leads to nothing.
pub proof fn key_frames_under_other_keys_change_nothing(
    before: StaTxRx,
    after: StaTxRx,
    frame: Seq<u8>,
    scratch: nat,
    own: Seq<u8>,
    bssid: Seq<u8>,
    buffer: Seq<u8>,
    commands_before: Seq<KeyCommand>,
    commands_after: Seq<KeyCommand>,
    reply: EapolReply,
)
    requires
        frame.len() >= 32,
        frame[0] == 0x08,
        frame[1] == 0x42,
        frame[26] != 0 || frame[27] != 0x20,
        eapol_handled(
            before,
            after,
            frame,
            scratch,
            own,
            bssid,
            buffer,
            commands_before,
            commands_after,
            reply,
        ),
    ensures
        reply is Nothing,
        after == before,
        commands_after == commands_before,
{
    assert(0x08u8 >> 4 == 0 && 0x42u8 & 0x01 == 0 && 0x42u8 & 0x40 != 0 && 0x42u8 & 0x80 == 0)
        by (bit_vector);
    assert(data_header_length(frame) == 24);
}

/// A request for a group key goes out protected, with a request counter that no other has, while we are
/// connected and have keys. It changes nothing but that counter and the packet number.
pub proof fn group_keys_are_requested(
    before: StaTxRx,
    after: StaTxRx,
    buffer: Seq<u8>,
    result: Result<Transmission, StaError>,
)
    requires
        buffer.len() >= 147,
        group_key_requested(before, after, buffer, result),
    ensures
        before.connection_state.info() is None ==> result == Err::<Transmission, StaError>(
            StaError::NotConnected,
        ) && after == before,
        before.connection_state.info() is Some && before.crypto_state is None ==> result == Err::<
            Transmission,
            StaError,
        >(StaError::GroupKeyHandshakeFailure) && after == before,
        before.connection_state.info() is Some && has_wpa2_keys(before)
            && before.crypto_state->Some_0.group_request_counter < u64::MAX && 0
            < before.crypto_state->Some_0.security_associations.ptksa.packet_number
            < 0x1_0000_0000_0000 ==> {
            let state = before.crypto_state->Some_0;
            let info = before.connection_state.info()->Some_0;
            &&& result matches Ok(transmission)
            &&& transmission.length == 147
            &&& transmission.mac_parameters.key_slot_index == Some(state.ptk_key_slot.key_slot)
            &&& group_frame_bytes(
                buffer,
                0x0b02,
                state.group_request_counter as int,
                info.own_address@,
                info.bss.bssid@,
                state.security_associations.ptksa.key@,
                state.security_associations.ptksa.packet_number,
            )
            &&& after.crypto_state matches Some(counted)
            &&& counted.group_request_counter == state.group_request_counter + 1
            &&& counted.security_associations.ptksa.packet_number
                == state.security_associations.ptksa.packet_number + 1
            &&& counted.security_associations.group_keys == state.security_associations.group_keys
        },
{
    if before.connection_state.info() is Some && has_wpa2_keys(before)
        && before.crypto_state->Some_0.group_request_counter < u64::MAX && 0
        < before.crypto_state->Some_0.security_associations.ptksa.packet_number
        < 0x1_0000_0000_0000 {
        let state = before.crypto_state->Some_0;
        let info = before.connection_state.info()->Some_0;
        lemma_key_parts(state);
        let counted = StaTxRx {
            crypto_state: Some(
                CryptoState {
                    group_request_counter: (state.group_request_counter + 1) as u64,
                    ..state
                },
            ),
            ..before
        };
        group_frames_are_protected(
            counted,
            after,
            buffer,
            info.bss.bssid@,
            info.own_address@,
            GROUP_REQUEST_INFORMATION,
            state.group_request_counter,
            result,
        );
    }
}

} // verus!

//! What the four way handshake promises, over the bytes of its messages.
use vstd::prelude::*;

use crate::bytes::{be_value, lemma_be_value_is_injective, lemma_be_value_pair, overwrite};
use crate::eapol::{
    eapol_frame, eapol_mic, envelope, envelope_offset, key_frame_layout, unwrapped_key_data,
    wpa2_personal, EapolKeyFields, EAPOL_LLC,
};
use crate::elements::first_gtk;
use crate::frame::data_header_length;
use crate::radio::{TxError, TxPhyRate};
use crate::sta::operations::handshake::{
    derived_ptk, handshake_continues, handshake_step, message_2_fields, message_4_fields,
    HandshakeAction, HandshakeParameters, HandshakeState,
};
use crate::sta::rsn_retransmit::carries_envelope;
use crate::tx_queue::RetryBehaviour;

verus! {

/// Where the body of a data frame to or from the access point starts: behind two more bytes where it
/// has QoS control.
pub open spec fn body_at(frame: Seq<u8>) -> int {
    if frame[0] == 0x88 {
        26
    } else {
        24
    }
}

/// Whether `frame` is a key frame without protection from the access point `bssid` to `own`, byte by
/// byte, with the given key information.
pub open spec fn key_frame_bytes(
    frame: Seq<u8>,
    own: Seq<u8>,
    bssid: Seq<u8>,
    information: int,
) -> bool {
    let at = body_at(frame) + 8;
    &&& frame.len() >= at + 99
    &&& frame[0] == 0x08 || frame[0] == 0x88 && frame[24] & 0x80 == 0
    &&& frame[1] == 0x02 || frame[1] == 0x0a
    &&& frame.subrange(4, 10) == own
    &&& frame.subrange(10, 16) == bssid
    &&& frame.subrange(at - 8, at) == seq![0xaau8, 0xaa, 3, 0, 0, 0, 0x88, 0x8e]
    &&& 1 <= frame[at] <= 3
    &&& frame[at + 1] == 3
    &&& frame[at + 2] * 256 + frame[at + 3] + at + 4 == frame.len()
    &&& frame[at + 4] == 2
    &&& frame[at + 5] * 256 + frame[at + 6] == information
    &&& frame[at + 97] * 256 + frame[at + 98] + at + 99 == frame.len()
}

/// The key length in a key frame.
pub open spec fn key_length_bytes(frame: Seq<u8>) -> int {
    frame[body_at(frame) + 15] * 256 + frame[body_at(frame) + 16]
}

/// The replay counter in a key frame.
pub open spec fn counter_bytes(frame: Seq<u8>) -> Seq<u8> {
    frame.subrange(body_at(frame) + 17, body_at(frame) + 25)
}

/// The nonce in a key frame.
pub open spec fn nonce_bytes(frame: Seq<u8>) -> Seq<u8> {
    frame.subrange(body_at(frame) + 25, body_at(frame) + 57)
}

/// The MIC in a key frame.
pub open spec fn mic_bytes(frame: Seq<u8>) -> Seq<u8> {
    frame.subrange(body_at(frame) + 89, body_at(frame) + 105)
}

/// The key data in a key frame.
pub open spec fn key_data_bytes(frame: Seq<u8>) -> Seq<u8> {
    frame.subrange(body_at(frame) + 107, frame.len() as int)
}

/// The MIC that the first sixteen bytes of a pairwise key give a key frame.
pub open spec fn frame_mic(ptk: Seq<u8>, frame: Seq<u8>) -> Seq<u8> {
    eapol_mic(
        ptk.subrange(0, 16),
        overwrite(
            frame.subrange(body_at(frame) + 8, frame.len() as int),
            81,
            Seq::new(16, |i: int| 0u8),
        ),
    )
}

/// The bytes of a key frame are what the fields of its envelope say.
pub proof fn lemma_key_frame_bytes(frame: Seq<u8>, own: Seq<u8>, bssid: Seq<u8>, information: int)
    requires
        key_frame_bytes(frame, own, bssid, information),
    ensures
        carries_envelope(frame, own, bssid),
        data_header_length(frame) == body_at(frame),
        envelope(frame) == frame.subrange(body_at(frame) + 8, frame.len() as int),
        be_value(envelope(frame).subrange(5, 7)) == information,
        be_value(envelope(frame).subrange(7, 9)) == key_length_bytes(frame),
        envelope(frame).subrange(9, 17) == counter_bytes(frame),
        envelope(frame).subrange(17, 49) == nonce_bytes(frame),
        envelope(frame).subrange(81, 97) == mic_bytes(frame),
        envelope(frame).subrange(99, envelope(frame).len() as int) == key_data_bytes(frame),
{
    assert((0x08u8 >> 2) & 3 == 2 && 0x08u8 >> 4 == 0 && (0x88u8 >> 2) & 3 == 2 && 0x88u8 >> 4 == 8
        && 0x02u8 & 0x01 == 0 && 0x02u8 & 0x02 != 0 && 0x02u8 & 0x40 == 0 && 0x02u8 & 0x80 == 0
        && 0x0au8 & 0x01 == 0 && 0x0au8 & 0x02 != 0 && 0x0au8 & 0x40 == 0 && 0x0au8 & 0x80 == 0)
        by (bit_vector);
    let at = body_at(frame) + 8;
    assert(data_header_length(frame) == body_at(frame));
    assert(envelope_offset(frame) == at);
    let contents = envelope(frame);
    assert(EAPOL_LLC@ =~= seq![0xaau8, 0xaa, 3, 0, 0, 0, 0x88, 0x8e]);
    lemma_be_value_pair(contents.subrange(2, 4));
    lemma_be_value_pair(contents.subrange(5, 7));
    lemma_be_value_pair(contents.subrange(7, 9));
    lemma_be_value_pair(contents.subrange(97, 99));
    assert(contents[1] == frame[at + 1]);
    assert(contents[4] == frame[at + 4]);
    assert(contents.subrange(9, 17) =~= counter_bytes(frame));
    assert(contents.subrange(17, 49) =~= nonce_bytes(frame));
    assert(contents.subrange(81, 97) =~= mic_bytes(frame));
    assert(contents.subrange(99, contents.len() as int) =~= key_data_bytes(frame));
}

/// Whether `frame` is an answer of `own` to the key frame `asked`, in the clear: it goes to the access
/// point, repeats the replay counter, tells `nonce`, and its MIC is of the pairwise key `ptk`.
pub open spec fn answers(
    frame: Seq<u8>,
    asked: Seq<u8>,
    own: Seq<u8>,
    bssid: Seq<u8>,
    information: int,
    nonce: Seq<u8>,
    ptk: Seq<u8>,
) -> bool {
    &&& frame.len() >= 131
    &&& frame[0] == 0x08
    &&& frame[1] == 0x01
    &&& frame.subrange(4, 10) == bssid
    &&& frame.subrange(10, 16) == own
    &&& frame.subrange(16, 22) == bssid
    &&& frame.subrange(24, 32) == seq![0xaau8, 0xaa, 3, 0, 0, 0, 0x88, 0x8e]
    &&& frame[37] * 256 + frame[38] == information
    &&& frame[39] * 256 + frame[40] == 16
    &&& frame.subrange(41, 49) == envelope(asked).subrange(9, 17)
    &&& frame.subrange(49, 81) == nonce
    &&& frame.subrange(113, 129) == frame_mic(ptk, frame)
}

/// A frame with the replay counter and nonce of an answer is one.
proof fn lemma_answers(
    frame: Seq<u8>,
    asked: Seq<u8>,
    own: Seq<u8>,
    bssid: Seq<u8>,
    fields: EapolKeyFields,
    data: Seq<u8>,
    ptk: Seq<u8>,
)
    requires
        own.len() == 6,
        bssid.len() == 6,
        data.len() <= 1000,
        frame.len() == 131 + data.len(),
        frame == eapol_frame(bssid, own, fields, data, ptk.subrange(0, 16)),
        envelope(asked).len() >= 99,
        fields.key_replay_counter == be_value(envelope(asked).subrange(9, 17)),
        fields.key_length == 16,
    ensures
        answers(
            frame,
            asked,
            own,
            bssid,
            fields.key_information as int,
            fields.key_nonce@,
            ptk,
        ),
        frame.subrange(131, frame.len() as int) == data,
{
    key_frame_layout(bssid, own, fields, data, ptk.subrange(0, 16));
    lemma_be_value_pair(frame.subrange(37, 39));
    lemma_be_value_pair(frame.subrange(39, 41));
    lemma_be_value_is_injective(frame.subrange(41, 49), envelope(asked).subrange(9, 17));
}

/// Whether a transmission of `length` bytes goes out in the clear.
pub open spec fn sent_in_the_clear(action: HandshakeAction, length: int, rate: TxPhyRate) -> bool {
    &&& action matches HandshakeAction::Transmit(transmission)
    &&& transmission.length == length
    &&& transmission.plcp_parameters.rate == rate
    &&& transmission.mac_parameters.key_slot_index is None
    &&& transmission.mac_parameters.override_seq_num
    &&& !transmission.mac_parameters.wait_for_ack
    &&& transmission.retry_behaviour == RetryBehaviour::RetryUntil(7)
}

/// Message 1 is answered by message 2: it repeats the replay counter, tells our nonce and the ciphers
/// that we ask for, and its MIC is of the key that the master key, both addresses and both nonces
/// give.
pub proof fn message_1_is_answered(
    parameters: HandshakeParameters,
    frame: Seq<u8>,
    scratch: nat,
    buffer: Seq<u8>,
    rate: TxPhyRate,
    next: (HandshakeState, HandshakeAction),
)
    requires
        key_frame_bytes(frame, parameters.own_address@, parameters.bssid@, 0x008a),
        key_length_bytes(frame) == 16,
        buffer.len() >= 153,
        handshake_step(
            parameters,
            HandshakeState::WaitMessage1,
            frame,
            scratch,
            buffer,
            rate,
            next,
        ),
    ensures
        next.0 matches HandshakeState::SendMessage2(keys) && {
            &&& keys.handshake.authenticator_nonce@ == nonce_bytes(frame)
            &&& keys.handshake.replay_counter == be_value(counter_bytes(frame))
            &&& keys.ptk@ == derived_ptk(
                parameters.pmk@,
                parameters.bssid@,
                parameters.own_address@,
                nonce_bytes(frame),
                parameters.supplicant_nonce@,
                48,
            )
            &&& answers(
                buffer.subrange(0, 153),
                frame,
                parameters.own_address@,
                parameters.bssid@,
                0x010a,
                parameters.supplicant_nonce@,
                keys.ptk@,
            )
        },
        buffer.subrange(131, 153) == seq![
            0x30u8, 20, 1, 0, 0, 0x0f, 0xac, 4, 1, 0, 0, 0x0f, 0xac, 4, 1, 0, 0, 0x0f, 0xac, 2, 0, 0,
        ],
        sent_in_the_clear(next.1, 153, rate),
{
    lemma_key_frame_bytes(frame, parameters.own_address@, parameters.bssid@, 0x008a);
    let keys = next.0->SendMessage2_0;
    lemma_answers(
        buffer.subrange(0, 153),
        frame,
        parameters.own_address@,
        parameters.bssid@,
        message_2_fields(parameters.supplicant_nonce, keys.handshake.replay_counter),
        wpa2_personal(),
        keys.ptk@,
    );
    assert(buffer.subrange(0, 153).subrange(131, 153) =~= buffer.subrange(131, 153));
}

/// A repeated message 1 of the same exchange is answered by message 2 with its own replay counter,
/// and with the nonce and the key of the exchange. One with another nonce or an older counter is
/// passed over.
pub proof fn repeated_message_1_is_answered(
    parameters: HandshakeParameters,
    state: HandshakeState,
    frame: Seq<u8>,
    scratch: nat,
    buffer: Seq<u8>,
    rate: TxPhyRate,
    next: (HandshakeState, HandshakeAction),
)
    requires
        state is WaitMessage3,
        key_frame_bytes(frame, parameters.own_address@, parameters.bssid@, 0x008a),
        key_length_bytes(frame) == 16,
        buffer.len() >= 153,
        handshake_step(parameters, state, frame, scratch, buffer, rate, next),
    ensures
        ({
            let keys = state->WaitMessage3_0;
            if nonce_bytes(frame) == keys.handshake.authenticator_nonce@ && be_value(
                counter_bytes(frame),
            ) >= keys.handshake.replay_counter {
                &&& next.0 matches HandshakeState::SendMessage2(kept)
                &&& kept.ptk == keys.ptk
                &&& kept.handshake.authenticator_nonce == keys.handshake.authenticator_nonce
                &&& kept.handshake.replay_counter == be_value(counter_bytes(frame))
                &&& answers(
                    buffer.subrange(0, 153),
                    frame,
                    parameters.own_address@,
                    parameters.bssid@,
                    0x010a,
                    parameters.supplicant_nonce@,
                    keys.ptk@,
                )
                &&& sent_in_the_clear(next.1, 153, rate)
            } else {
                next.0 == state && next.1 is Receive
            }
        }),
{
    let keys = state->WaitMessage3_0;
    lemma_key_frame_bytes(frame, parameters.own_address@, parameters.bssid@, 0x008a);
    if nonce_bytes(frame) == keys.handshake.authenticator_nonce@ && be_value(
        counter_bytes(frame),
    ) >= keys.handshake.replay_counter {
        let kept = next.0->SendMessage2_0;
        lemma_answers(
            buffer.subrange(0, 153),
            frame,
            parameters.own_address@,
            parameters.bssid@,
            message_2_fields(parameters.supplicant_nonce, kept.handshake.replay_counter),
            wpa2_personal(),
            kept.ptk@,
        );
    }
}

/// Whether `frame` is an authentic message 3 for the exchange with the given key, nonce and replay
/// counter, byte by byte. The key data, wrapped with the second sixteen bytes of the pairwise key,
/// holds the group key `gtk` under the identifier `gtk_id`.
pub open spec fn message_3_bytes(
    frame: Seq<u8>,
    scratch: nat,
    own: Seq<u8>,
    bssid: Seq<u8>,
    ptk: Seq<u8>,
    nonce: Seq<u8>,
    counter: u64,
    gtk_id: u8,
    gtk: Seq<u8>,
) -> bool {
    &&& key_frame_bytes(frame, own, bssid, 0x13ca)
    &&& key_length_bytes(frame) == 16
    &&& be_value(counter_bytes(frame)) > counter
    &&& nonce_bytes(frame) == nonce
    &&& mic_bytes(frame) == frame_mic(ptk, frame)
    &&& key_data_bytes(frame).len() >= 24
    &&& key_data_bytes(frame).len() % 8 == 0
    &&& key_data_bytes(frame).len() - 8 <= scratch
    &&& unwrapped_key_data(ptk.subrange(16, 32), key_data_bytes(frame)) matches
        Some(plain) && first_gtk(plain) == Some((gtk_id, gtk))
    &&& gtk.len() == 16
}

/// An authentic message 3 is answered by message 4, which repeats its replay counter and tells our
/// nonce, and brings its group key, from whose first packet on frames are taken.
pub proof fn message_3_is_answered(
    parameters: HandshakeParameters,
    state: HandshakeState,
    frame: Seq<u8>,
    scratch: nat,
    buffer: Seq<u8>,
    rate: TxPhyRate,
    next: (HandshakeState, HandshakeAction),
    gtk_id: u8,
    gtk: Seq<u8>,
)
    requires
        state is WaitMessage3,
        message_3_bytes(
            frame,
            scratch,
            parameters.own_address@,
            parameters.bssid@,
            state->WaitMessage3_0.ptk@,
            state->WaitMessage3_0.handshake.authenticator_nonce@,
            state->WaitMessage3_0.handshake.replay_counter,
            gtk_id,
            gtk,
        ),
        buffer.len() >= 131,
        handshake_step(parameters, state, frame, scratch, buffer, rate, next),
    ensures
        next.0 matches HandshakeState::SendMessage4(kept, group) && {
            &&& kept.ptk == state->WaitMessage3_0.ptk
            &&& kept.handshake.authenticator_nonce@ == nonce_bytes(frame)
            &&& kept.handshake.replay_counter == be_value(counter_bytes(frame))
            &&& group.key@ == gtk
            &&& group.key_id == gtk_id
            &&& group.replay_counter == 0
        },
        answers(
            buffer.subrange(0, 131),
            frame,
            parameters.own_address@,
            parameters.bssid@,
            0x030a,
            parameters.supplicant_nonce@,
            state->WaitMessage3_0.ptk@,
        ),
        buffer.subrange(41, 49) == counter_bytes(frame),
        sent_in_the_clear(next.1, 131, rate),
{
    let keys = state->WaitMessage3_0;
    lemma_key_frame_bytes(frame, parameters.own_address@, parameters.bssid@, 0x13ca);
    let kept = next.0->SendMessage4_0;
    lemma_answers(
        buffer.subrange(0, 131),
        frame,
        parameters.own_address@,
        parameters.bssid@,
        message_4_fields(parameters.supplicant_nonce, kept.handshake.replay_counter),
        Seq::<u8>::empty(),
        kept.ptk@,
    );
    assert(buffer.subrange(0, 131).subrange(41, 49) =~= buffer.subrange(41, 49));
}

/// Whatever moves a handshake on comes from the access point, in the clear. While message 3 is
/// awaited it repeats the nonce of the exchange, its replay counter does not go back, and message 4
/// answers only what has a larger counter and the MIC of the exchange, with the counter and nonce
/// that it asks for.
pub proof fn only_the_access_point_moves_a_handshake_on(
    parameters: HandshakeParameters,
    state: HandshakeState,
    frame: Seq<u8>,
    scratch: nat,
    buffer: Seq<u8>,
    rate: TxPhyRate,
    next: (HandshakeState, HandshakeAction),
)
    requires
        state is WaitMessage1 || state is WaitMessage3,
        buffer.len() >= 153,
        handshake_step(parameters, state, frame, scratch, buffer, rate, next),
        next.1 !is Receive,
    ensures
        frame.subrange(4, 10) == parameters.own_address@,
        frame.subrange(10, 16) == parameters.bssid@,
        frame[1] & 0x43 == 0x02,
        state matches HandshakeState::WaitMessage3(keys) ==> {
            &&& envelope(frame).subrange(17, 49) == keys.handshake.authenticator_nonce@
            &&& be_value(envelope(frame).subrange(9, 17)) >= keys.handshake.replay_counter
        },
        next.0 matches HandshakeState::SendMessage4(_, _) ==> {
            &&& state matches HandshakeState::WaitMessage3(keys)
            &&& be_value(envelope(frame).subrange(9, 17)) > keys.handshake.replay_counter
            &&& envelope(frame).subrange(81, 97) == eapol_mic(
                keys.ptk@.subrange(0, 16),
                overwrite(envelope(frame), 81, Seq::new(16, |i: int| 0u8)),
            )
            &&& answers(
                buffer.subrange(0, 131),
                frame,
                parameters.own_address@,
                parameters.bssid@,
                0x030a,
                parameters.supplicant_nonce@,
                keys.ptk@,
            )
        },
        next.0 is SendMessage2 || next.0 is SendMessage4,
        next.1 is Transmit,
{
    let flags = frame[1];
    assert(flags & 0x02 != 0 && flags & 0x01 == 0 && flags & 0x40 == 0 ==> flags & 0x43 == 0x02)
        by (bit_vector);
    if let HandshakeState::SendMessage4(kept, _) = next.0 {
        lemma_answers(
            buffer.subrange(0, 131),
            frame,
            parameters.own_address@,
            parameters.bssid@,
            message_4_fields(parameters.supplicant_nonce, kept.handshake.replay_counter),
            Seq::<u8>::empty(),
            kept.ptk@,
        );
    }
}

/// A handshake ends with the keys of both sides: the pairwise key that the master key, both addresses
/// and the nonces in message 1 and message 2 give, and the group key in message 3. The packet numbers
/// of both start over, and later messages have to have larger replay counters than message 3.
pub proof fn handshake_agrees_on_keys(
    parameters: HandshakeParameters,
    message_1: Seq<u8>,
    message_3: Seq<u8>,
    scratch: nat,
    buffer_2: Seq<u8>,
    buffer_4: Seq<u8>,
    rate: TxPhyRate,
    asked: (HandshakeState, HandshakeAction),
    waiting: (HandshakeState, HandshakeAction),
    confirmed: (HandshakeState, HandshakeAction),
    done: (HandshakeState, HandshakeAction),
    gtk_id: u8,
    gtk: Seq<u8>,
    retries_2: u8,
    retries_4: u8,
)
    requires
        key_frame_bytes(message_1, parameters.own_address@, parameters.bssid@, 0x008a),
        key_length_bytes(message_1) == 16,
        buffer_2.len() >= 153,
        buffer_4.len() >= 131,
        handshake_step(
            parameters,
            HandshakeState::WaitMessage1,
            message_1,
            scratch,
            buffer_2,
            rate,
            asked,
        ),
        handshake_continues(parameters, asked.0, Some(Ok(retries_2)), waiting),
        message_3_bytes(
            message_3,
            scratch,
            parameters.own_address@,
            parameters.bssid@,
            derived_ptk(
                parameters.pmk@,
                parameters.bssid@,
                parameters.own_address@,
                nonce_bytes(message_1),
                parameters.supplicant_nonce@,
                48,
            ),
            nonce_bytes(message_1),
            be_value(counter_bytes(message_1)) as u64,
            gtk_id,
            gtk,
        ),
        handshake_step(parameters, waiting.0, message_3, scratch, buffer_4, rate, confirmed),
        handshake_continues(parameters, confirmed.0, Some(Ok(retries_4)), done),
    ensures
        waiting.1 is Receive,
        done.0 is Finished,
        done.1 matches HandshakeAction::Complete(associations, replay) && {
            &&& associations.ptksa.key@ == derived_ptk(
                parameters.pmk@,
                parameters.bssid@,
                parameters.own_address@,
                nonce_bytes(message_1),
                parameters.supplicant_nonce@,
                48,
            )
            &&& associations.ptksa.replay_counter == 0
            &&& associations.ptksa.packet_number == 1
            &&& associations.ptksa.key_id == 0
            &&& associations.active_group_id == gtk_id
            &&& associations.group_keys@[gtk_id as int] matches Some(group)
            &&& group.key@ == gtk
            &&& group.key_id == gtk_id
            &&& group.replay_counter == 0
            &&& forall|i: int|
                0 <= i < 4 && i != gtk_id ==> #[trigger] associations.group_keys@[i] is None
            &&& associations.akm_suite == 0x02ac_0f00
            &&& associations.cipher_suite == 0x04ac_0f00
            &&& replay.authenticator_nonce@ == nonce_bytes(message_1)
            &&& replay.supplicant_nonce@ == parameters.supplicant_nonce@
            &&& replay.replay_counter == be_value(counter_bytes(message_3))
        },
{
    message_1_is_answered(parameters, message_1, scratch, buffer_2, rate, asked);
    message_3_is_answered(
        parameters,
        waiting.0,
        message_3,
        scratch,
        buffer_4,
        rate,
        confirmed,
        gtk_id,
        gtk,
    );
}

/// Where a key frame could not be sent, the handshake is given up: nothing is completed without a
/// completion that reports success.
pub proof fn handshake_needs_completions(
    parameters: HandshakeParameters,
    state: HandshakeState,
    completion: Option<Result<u8, TxError>>,
    next: (HandshakeState, HandshakeAction),
)
    requires
        state is SendMessage2 || state is SendMessage4,
        handshake_continues(parameters, state, completion, next),
    ensures
        next.1 is Fail == !(completion matches Some(Ok(_))),
        next.1 is Complete == (state is SendMessage4 && completion matches Some(Ok(_))),
        next.1 is Receive == (state is SendMessage2 && completion matches Some(Ok(_))),
        next.1 matches HandshakeAction::Fail(error) ==> (completion is None
            <==> error == crate::sta::StaError::TxCompletionLost),
{
}

} // verus!

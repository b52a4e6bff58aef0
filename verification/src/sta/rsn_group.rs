//! Bounded WPA2-PSK/CCMP group key message decoding and outer EAPOL framing.
use vstd::prelude::*;

use super::rsn_retransmit::{
    carries_envelope, carries_group_key, decoded_buffer, group_key_of, group_key_payload,
    known_version, wrapped_key_data_fits,
};
use crate::bytes::{
    bytes_equal, le_bytes, le_value, lemma_le_bytes_length, lemma_le_round_trip, move_bytes, overwrite, pow256,
    read_be16, read_le48, to_array, write_bytes,
};
use crate::eapol::{
    decode_eapol_key, envelope, key_information, key_nonce,
    lemma_mic_and_encryption_announced, replay_counter, EAPOL_LLC, ENVELOPE_LENGTH,
};
use crate::elements::find_gtk;
use crate::frame::{
    body_offset, crypto_header, crypto_header_readable, data_header_length, frame_subtype, has_flag,
    is_data_frame, open_body, parse_data_frame, qos_offset, serialize_crypto_header,
    subtype_has_payload, subtype_is_qos, wire_packet_number, CCMP_HEADER_LENGTH, CCMP_MIC_LENGTH,
    FLAG_FROM_DS, FLAG_ORDER, FLAG_PROTECTED, FLAG_TO_DS, MAX_PN,
};
use crate::mac::{mac_address_extensional, MACAddress};

verus! {

broadcast use mac_address_extensional;

/// Whether [protect_eapol] can protect the first `length` bytes of `buffer`.
pub open spec fn protectable(buffer: Seq<u8>, length: int, pn: u64) -> bool {
    &&& 0 < pn <= MAX_PN
    &&& length + CCMP_HEADER_LENGTH + CCMP_MIC_LENGTH <= buffer.len()
    &&& is_data_frame(buffer.subrange(0, length))
    &&& !has_flag(buffer, FLAG_PROTECTED)
}

/// `frame` marked as protected, with a CCMP header for packet number `pn` and key 0 in front of
/// its body.
pub open spec fn with_crypto_header(frame: Seq<u8>, pn: u64) -> Seq<u8> {
    let header = data_header_length(frame);
    frame.subrange(0, header).update(1, frame[1] | FLAG_PROTECTED) + crypto_header(pn, 0)
        + frame.subrange(header, frame.len() as int)
}

/// Add the CCMP header and MIC space after serializing the inner EAPOL MIC.
///
/// The radio encrypts the payload using the caller's existing pairwise key slot.
pub fn protect_eapol(buffer: &mut [u8], length: usize, pn: u64) -> (protected: Option<usize>)
    ensures
        protected is Some == protectable(old(buffer)@, length as int, pn),
        protected matches Some(protected) ==> {
            &&& protected == length + 16
            &&& final(buffer)@ == overwrite(
                old(buffer)@,
                0,
                with_crypto_header(old(buffer)@.subrange(0, length as int), pn) + Seq::new(
                    CCMP_MIC_LENGTH as nat,
                    |i: int| 0u8,
                ),
            )
        },
        protected is None ==> final(buffer)@ == old(buffer)@,
{
    let capacity: usize = buffer.len();
    if pn == 0 || pn > MAX_PN || capacity < 16 || length > capacity - 16 {
        return None;
    }
    let header = match parse_data_frame(&buffer[0..length]) {
        Some(header) => header,
        None => {
            return None;
        },
    };
    if header.protected() {
        return None;
    }
    let ghost before = buffer@;
    let ghost frame = before.subrange(0, length as int);
    let header_bytes = serialize_crypto_header(pn, 0);
    proof {
        lemma_le_bytes_length(pn as nat, 6);
    }
    move_bytes(buffer, header.length, length, header.length + 8);
    write_bytes(buffer, header.length, &header_bytes);
    buffer[1] = buffer[1] | FLAG_PROTECTED;
    write_bytes(buffer, length + 8, &[0, 0, 0, 0, 0, 0, 0, 0]);
    assert(buffer@ =~= overwrite(
        before,
        0,
        with_crypto_header(frame, pn) + Seq::new(CCMP_MIC_LENGTH as nat, |i: int| 0u8),
    ));
    Some(length + 16)
}

/// Whether `body` starts like an EAPOL-Key frame behind its LLC header.
pub open spec fn is_key_body(body: Seq<u8>) -> bool {
    &&& body.len() >= 10
    &&& body.subrange(0, 8) == EAPOL_LLC@
    &&& body[9] == 3
}

/// Whether `frame` is a data frame whose body, behind a possible CCMP header, is an EAPOL-Key
/// frame.
pub open spec fn spec_is_key_frame(frame: Seq<u8>) -> bool {
    &&& is_data_frame(frame)
    &&& subtype_has_payload(frame_subtype(frame))
    &&& !(subtype_is_qos(frame_subtype(frame)) && frame[qos_offset(frame)] & 0x80 != 0)
    &&& is_key_body(frame.subrange(body_offset(frame), frame.len() as int))
}

/// Recognize EAPOL after the MAC's CCMP decryption, without consuming its packet number.
///
/// Classification grants no authority: the connection handler validates the selected access
/// point, direction, EAPOL MIC, key envelope and replay state.
pub fn is_key_frame(buffer: &[u8]) -> (key_frame: bool)
    requires
        crypto_header_readable(buffer@),
    ensures
        key_frame == spec_is_key_frame(buffer@),
{
    match open_body(buffer) {
        Some(body) => !body.amsdu && body.payload.len() >= 10 && bytes_equal(
            &body.payload[0..8],
            &EAPOL_LLC,
        ) && body.payload[9] == 3,
        None => false,
    }
}

/// Whether `frame` is a data frame from the access point `bssid` to `own`.
pub open spec fn is_downlink(frame: Seq<u8>, own: Seq<u8>, bssid: Seq<u8>) -> bool {
    &&& is_data_frame(frame)
    &&& frame.subrange(4, 10) == own
    &&& frame.subrange(10, 16) == bssid
    &&& has_flag(frame, FLAG_FROM_DS)
    &&& !has_flag(frame, FLAG_TO_DS)
}

/// Whether [normalize] accepts a frame: a key frame from `bssid` to `own` that is not protected,
/// or whose CCMP header names the pairwise key and has no reserved bit set.
pub open spec fn normalizable(frame: Seq<u8>, own: Seq<u8>, bssid: Seq<u8>) -> bool {
    &&& is_downlink(frame, own, bssid)
    &&& spec_is_key_frame(frame)
    &&& has_flag(frame, FLAG_PROTECTED) ==> {
        &&& frame[data_header_length(frame) + 2] == 0
        &&& frame[data_header_length(frame) + 3] == 0x20
    }
}

/// `frame` without CCMP header and protected flag.
pub open spec fn normalized(frame: Seq<u8>) -> Seq<u8> {
    if has_flag(frame, FLAG_PROTECTED) {
        let header = data_header_length(frame);
        frame.subrange(0, header).update(1, frame[1] & !FLAG_PROTECTED) + frame.subrange(
            header + CCMP_HEADER_LENGTH,
            frame.len() as int,
        )
    } else {
        frame
    }
}

/// Remove the hardware-retained CCMP header from an authenticated key frame envelope.
///
/// The returned data packet number must be checked before any state is changed. The hardware has
/// already checked the CCMP MIC; EAPOL MIC validation follows.
pub fn normalize(buffer: &mut [u8], own: MACAddress, bssid: MACAddress) -> (frame: Option<
    (usize, Option<u64>),
>)
    requires
        is_downlink(old(buffer)@, own@, bssid@) ==> crypto_header_readable(old(buffer)@),
    ensures
        frame is Some == normalizable(old(buffer)@, own@, bssid@),
        frame matches Some((length, pn)) ==> {
            &&& length == normalized(old(buffer)@).len()
            &&& final(buffer)@ == overwrite(old(buffer)@, 0, normalized(old(buffer)@))
            &&& pn is Some == has_flag(old(buffer)@, FLAG_PROTECTED)
            &&& pn matches Some(pn) ==> pn as nat == wire_packet_number(
                old(buffer)@,
                data_header_length(old(buffer)@),
            )
        },
        frame is None ==> final(buffer)@ == old(buffer)@,
{
    let header = match parse_data_frame(buffer) {
        Some(header) => header,
        None => {
            return None;
        },
    };
    if header.address_1 != own || header.address_2 != bssid || !header.from_ds() || header.to_ds() {
        return None;
    }
    if !is_key_frame(buffer) {
        return None;
    }
    let length: usize = buffer.len();
    let ghost before = buffer@;
    let packet_number = match open_body(buffer) {
        Some(body) => body.packet_number,
        None => {
            return None;
        },
    };
    match packet_number {
        None => {
            assert(overwrite(before, 0, normalized(before)) =~= before);
            Some((length, None))
        },
        Some(pn) => {
            // The extended IV flag and key 0 only, and the reserved byte.
            if buffer[header.length + 2] != 0 || buffer[header.length + 3] != 0x20 {
                return None;
            }
            move_bytes(buffer, header.length + 8, length, header.length);
            buffer[1] = buffer[1] & !FLAG_PROTECTED;
            assert(buffer@ =~= overwrite(before, 0, normalized(before)));
            Some((length - 8, Some(pn)))
        },
    }
}

/// Setting the protected flag keeps the other flags, and clearing it again restores them.
proof fn lemma_protected_flag(flags: u8)
    requires
        flags & FLAG_PROTECTED == 0,
    ensures
        (flags | FLAG_PROTECTED) & FLAG_PROTECTED != 0,
        (flags | FLAG_PROTECTED) & FLAG_TO_DS == flags & FLAG_TO_DS,
        (flags | FLAG_PROTECTED) & FLAG_FROM_DS == flags & FLAG_FROM_DS,
        (flags | FLAG_PROTECTED) & FLAG_ORDER == flags & FLAG_ORDER,
        (flags | FLAG_PROTECTED) & !FLAG_PROTECTED == flags,
        0x20u8 | (0u8 << 6) == 0x20,
        0x20u8 & 0x20 != 0,
{
    assert(flags & 0x40 == 0 ==> (flags | 0x40) & 0x40 != 0 && (flags | 0x40) & 0x01 == flags & 0x01
        && (flags | 0x40) & 0x02 == flags & 0x02 && (flags | 0x40) & 0x80 == flags & 0x80 && (flags
        | 0x40) & !0x40u8 == flags) by (bit_vector);
    assert(0x20u8 | (0u8 << 6) == 0x20 && 0x20u8 & 0x20 != 0) by (bit_vector);
}

/// A key frame that was protected is what it was before, once its MIC is stripped and it is
/// normalized, and the packet number comes back with it.
pub proof fn protection_round_trip(frame: Seq<u8>, pn: u64, own: Seq<u8>, bssid: Seq<u8>)
    requires
        is_downlink(frame, own, bssid),
        spec_is_key_frame(frame),
        !has_flag(frame, FLAG_PROTECTED),
        0 < pn <= MAX_PN,
    ensures
        normalizable(with_crypto_header(frame, pn), own, bssid),
        normalized(with_crypto_header(frame, pn)) == frame,
        wire_packet_number(
            with_crypto_header(frame, pn),
            data_header_length(with_crypto_header(frame, pn)),
        ) == pn,
{
    let protected = with_crypto_header(frame, pn);
    let header = data_header_length(frame);
    let pn_bytes = le_bytes(pn as nat, 6);
    lemma_protected_flag(frame[1]);
    reveal_with_fuel(pow256, 7);
    lemma_le_round_trip(pn as nat, 6);
    assert(crypto_header(pn, 0).len() == 8);
    assert(protected[0] == frame[0]);
    assert(protected[1] == frame[1] | FLAG_PROTECTED);
    assert(data_header_length(protected) == header);
    assert(protected.subrange(4, 10) =~= frame.subrange(4, 10));
    assert(protected.subrange(10, 16) =~= frame.subrange(10, 16));
    assert(forall|i: int| 2 <= i < header ==> protected[i] == frame[i]);
    assert(protected.subrange(header + 8, protected.len() as int) =~= frame.subrange(
        header,
        frame.len() as int,
    ));
    assert(protected.subrange(header, header + 2) + protected.subrange(header + 4, header + 8)
        =~= pn_bytes) by {
        assert(protected.subrange(header, header + 8) =~= crypto_header(pn, 0));
        assert forall|i: int| 0 <= i < 8 implies protected[header + i] == crypto_header(
            pn,
            0,
        )[i] by {
            assert(protected.subrange(header, header + 8)[i] == protected[header + i]);
        }
    }
    assert(normalized(protected) =~= frame);
}

/// The contents of an authenticated group message 1.
#[derive(Clone, Copy, Debug)]
pub struct GroupMessage1 {
    /// Replay counter.
    pub counter: u64,
    /// Nonce.
    pub nonce: [u8; 32],
    /// Group key.
    pub key: [u8; 16],
    /// Identifier of the group key.
    pub key_id: u8,
    /// Packet number from which the key is in use.
    pub rsc: u64,
}

/// Key information of group message 1: version 2, group, ACK, MIC, secure and encrypted key data.
pub const GROUP_MESSAGE_1_INFORMATION: u16 = 0x1382;

/// Whether a frame has the fixed fields of group message 1, and key data that fits into `scratch`
/// bytes.
pub open spec fn is_group_message_1(
    frame: Seq<u8>,
    scratch: nat,
    own: Seq<u8>,
    bssid: Seq<u8>,
) -> bool {
    &&& carries_envelope(frame, own, bssid)
    &&& known_version(envelope(frame))
    &&& key_information(envelope(frame)) == GROUP_MESSAGE_1_INFORMATION
    &&& wrapped_key_data_fits(envelope(frame), scratch)
    &&& envelope(frame)[71] == 0
    &&& envelope(frame)[72] == 0
}

/// The receive packet number in an envelope: 48 bits, little endian.
pub open spec fn receive_sequence_counter(envelope: Seq<u8>) -> nat {
    le_value(envelope.subrange(65, 71))
}

impl GroupMessage1 {
    /// Whether these are the contents of the group message 1 in `frame`.
    pub open spec fn read_from(&self, frame: Seq<u8>, kck: Seq<u8>, kek: Seq<u8>) -> bool {
        &&& self.counter as nat == replay_counter(envelope(frame))
        &&& self.nonce@ == key_nonce(envelope(frame))
        &&& (self.key_id, self.key@) == group_key_of(kck, kek, envelope(frame))
        &&& self.rsc as nat == receive_sequence_counter(envelope(frame))
    }
}

impl GroupMessage1 {
    /// Compare two messages.
    pub fn equals(&self, other: &GroupMessage1) -> (equal: bool)
        ensures
            equal == (*self == *other),
    {
        let equal = self.counter == other.counter && bytes_equal(&self.nonce, &other.nonce)
            && bytes_equal(&self.key, &other.key) && self.key_id == other.key_id && self.rsc
            == other.rsc;
        proof {
            if equal {
                assert(self.nonce =~= other.nonce);
                assert(self.key =~= other.key);
            }
        }
        equal
    }
}

/// Check and decode group message 1.
///
/// The receive packet number of CCMP has 48 bits and is little endian on the wire.
pub fn decode_group_message_1(
    buffer: &mut [u8],
    scratch: &mut [u8],
    kck: &[u8; 16],
    kek: &[u8; 16],
    own: MACAddress,
    bssid: MACAddress,
) -> (message: Option<GroupMessage1>)
    ensures
        message is Some == (is_group_message_1(
            old(buffer)@,
            old(scratch)@.len(),
            own@,
            bssid@,
        ) && carries_group_key(kck@, kek@, envelope(old(buffer)@))),
        message matches Some(message) ==> message.read_from(old(buffer)@, kck@, kek@),
        final(buffer)@ == decoded_buffer(
            old(buffer)@,
            is_group_message_1(old(buffer)@, old(scratch)@.len(), own@, bssid@),
            kck@,
            kek@,
        ),
        final(scratch)@.len() == old(scratch)@.len(),
{
    let rsc: u64 = match group_key_payload(buffer, own, bssid) {
        Some(envelope) => {
            if read_be16(envelope, 5) != GROUP_MESSAGE_1_INFORMATION {
                return None;
            }
            let data_length: usize = envelope.len() - ENVELOPE_LENGTH;
            if data_length < 24 || data_length % 8 != 0 || data_length - 8 > scratch.len() {
                return None;
            }
            if envelope[71] != 0 || envelope[72] != 0 {
                return None;
            }
            read_le48(envelope, 65)
        },
        None => {
            return None;
        },
    };
    proof {
        lemma_mic_and_encryption_announced(envelope(buffer@));
    }
    let key = match decode_eapol_key(buffer, scratch, kck, kek) {
        Some(key) => key,
        None => {
            return None;
        },
    };
    match find_gtk(&key.key_data) {
        Some(gtk) => {
            if gtk.gtk.len() != 16 {
                return None;
            }
            Some(
                GroupMessage1 {
                    counter: key.key_replay_counter,
                    nonce: key.key_nonce,
                    key: to_array::<16>(&gtk.gtk),
                    key_id: gtk.key_id,
                    rsc,
                },
            )
        },
        None => None,
    }
}

} // verus!

//! Recover a lost message 4 without reinstalling keys or resetting data replay state.
use vstd::prelude::*;

use crate::bytes::{be_value, bytes_equal, read_be16, to_array};
use crate::eapol::{
    authentic_key_data, decode_eapol_key, envelope, envelope_offset, key_data, key_information,
    key_length, key_nonce, lemma_mic_and_encryption_announced, replay_counter, with_plain_key_data,
    EAPOL_LLC, ENVELOPE_LENGTH,
};
use crate::elements::{find_gtk, first_gtk};
use crate::frame::{
    data_header_length, frame_subtype, has_flag, is_data_frame, parse_data_frame,
    subtype_has_payload, FLAG_FROM_DS, FLAG_PROTECTED, FLAG_TO_DS,
};
use crate::mac::{mac_address_extensional, MACAddress};

verus! {

broadcast use mac_address_extensional;

/// Key information of message 3: version 2, pairwise, install, ACK, MIC, secure and encrypted key
/// data. The request, error and key index bits are clear.
pub const MESSAGE_3_INFORMATION: u16 = 0x13ca;

/// Whether `frame` is an unprotected frame from the access point `bssid` to `own` that carries an
/// EAPOL-Key envelope whose lengths add up.
pub open spec fn carries_envelope(frame: Seq<u8>, own: Seq<u8>, bssid: Seq<u8>) -> bool {
    &&& is_data_frame(frame)
    &&& frame.subrange(4, 10) == own
    &&& frame.subrange(10, 16) == bssid
    &&& has_flag(frame, FLAG_FROM_DS)
    &&& !has_flag(frame, FLAG_TO_DS)
    &&& !has_flag(frame, FLAG_PROTECTED)
    &&& subtype_has_payload(frame_subtype(frame))
    &&& envelope_offset(frame) <= frame.len()
    &&& frame.subrange(data_header_length(frame), envelope_offset(frame)) == EAPOL_LLC@
    &&& envelope(frame).len() >= ENVELOPE_LENGTH
    &&& envelope(frame)[1] == 3
    &&& envelope(frame)[4] == 2
    &&& be_value(envelope(frame).subrange(2, 4)) + 4 == envelope(frame).len()
    &&& be_value(envelope(frame).subrange(97, 99)) + ENVELOPE_LENGTH == envelope(frame).len()
}

/// Whether `envelope` has wrapped key data that fits into `scratch` bytes once unwrapped.
pub open spec fn wrapped_key_data_fits(envelope: Seq<u8>, scratch: nat) -> bool {
    &&& key_data(envelope).len() >= 24
    &&& key_data(envelope).len() % 8 == 0
    &&& key_data(envelope).len() - 8 <= scratch
}

/// Get the envelope of a frame, as [carries_envelope] states.
fn carried_envelope<'a>(buffer: &'a [u8], own: MACAddress, bssid: MACAddress) -> (payload: Option<
    &'a [u8],
>)
    ensures
        payload is Some == carries_envelope(buffer@, own@, bssid@),
        payload matches Some(payload) ==> payload@ == envelope(buffer@),
{
    let header = match parse_data_frame(buffer) {
        Some(header) => header,
        None => {
            return None;
        },
    };
    if header.address_1 != own || header.address_2 != bssid || !header.from_ds() || header.to_ds()
        || header.protected() || !header.has_payload {
        return None;
    }
    let length: usize = buffer.len();
    if length - header.length < 8 || !bytes_equal(
        &buffer[header.length..header.length + 8],
        &EAPOL_LLC,
    ) {
        return None;
    }
    let eapol = &buffer[header.length + 8..length];
    if eapol.len() < ENVELOPE_LENGTH || eapol[1] != 3 || eapol[4] != 2 {
        return None;
    }
    let body_length: usize = read_be16(eapol, 2) as usize;
    let key_data_length: usize = read_be16(eapol, 97) as usize;
    if body_length + 4 != eapol.len() || key_data_length + ENVELOPE_LENGTH != eapol.len() {
        return None;
    }
    Some(eapol)
}

/// State of the completed initial exchange, separate from CCMP packet numbers.
pub struct Message3Replay {
    /// The nonce of the access point.
    pub authenticator_nonce: [u8; 32],
    /// The nonce of this station.
    pub supplicant_nonce: [u8; 32],
    /// The replay counter of the last accepted message.
    pub replay_counter: u64,
}

/// Whether a frame is an authentic retry of message 3 that repeats the keys in use.
///
/// The envelope has the fixed fields of message 3 and key data that fits into `scratch` bytes,
/// its MIC and key data check out, it repeats the nonce and the group key, and its replay counter
/// is larger than `counter`.
pub open spec fn is_message_3_retry(
    frame: Seq<u8>,
    scratch: nat,
    kck: Seq<u8>,
    kek: Seq<u8>,
    gtk: Seq<u8>,
    gtk_id: u8,
    own: Seq<u8>,
    bssid: Seq<u8>,
    nonce: Seq<u8>,
    counter: u64,
) -> bool {
    &&& is_message_3(frame, scratch, own, bssid)
    &&& authentic_key_data(kck, kek, envelope(frame)) is Some
    &&& key_nonce(envelope(frame)) == nonce
    &&& replay_counter(envelope(frame)) > counter
    &&& first_gtk(authentic_key_data(kck, kek, envelope(frame))->Some_0) == Some((gtk_id, gtk))
}

/// Whether a frame has the fixed fields of message 3, and key data that fits into `scratch` bytes.
pub open spec fn is_message_3(frame: Seq<u8>, scratch: nat, own: Seq<u8>, bssid: Seq<u8>) -> bool {
    &&& carries_envelope(frame, own, bssid)
    &&& key_information(envelope(frame)) == MESSAGE_3_INFORMATION
    &&& key_length(envelope(frame)) == 16
    &&& wrapped_key_data_fits(envelope(frame), scratch)
}

/// What decoding leaves in the buffer: unwrapped key data where a frame was found authentic.
pub open spec fn decoded_buffer(
    frame: Seq<u8>,
    decoded: bool,
    kck: Seq<u8>,
    kek: Seq<u8>,
) -> Seq<u8> {
    match authentic_key_data(kck, kek, envelope(frame)) {
        Some(plain) if decoded => with_plain_key_data(frame, plain),
        _ => frame,
    }
}

impl Message3Replay {
    /// Start from a completed exchange.
    pub fn new(
        authenticator_nonce: [u8; 32],
        supplicant_nonce: [u8; 32],
        replay_counter: u64,
    ) -> (replay: Self)
        ensures
            replay == (Message3Replay { authenticator_nonce, supplicant_nonce, replay_counter }),
    {
        Self { authenticator_nonce, supplicant_nonce, replay_counter }
    }

    /// Get the replay counter of the last accepted message.
    pub fn counter(&self) -> (counter: u64)
        ensures
            counter == self.replay_counter,
    {
        self.replay_counter
    }

    /// Set the replay counter to that of an accepted message.
    pub fn advance(&mut self, counter: u64)
        ensures
            *final(self) == (Message3Replay { replay_counter: counter, ..*old(self) }),
    {
        self.replay_counter = counter;
    }

    /// Accept only authenticated message 3 retries for the already installed keys.
    ///
    /// No key slot or data packet number is accessible through this.
    pub fn accept(
        &mut self,
        buffer: &mut [u8],
        scratch: &mut [u8],
        kck: &[u8; 16],
        kek: &[u8; 16],
        gtk: &[u8; 16],
        gtk_id: u8,
        own_address: MACAddress,
        bssid: MACAddress,
    ) -> (counter: Option<u64>)
        ensures
            counter is Some == is_message_3_retry(
                old(buffer)@,
                old(scratch)@.len(),
                kck@,
                kek@,
                gtk@,
                gtk_id,
                own_address@,
                bssid@,
                old(self).authenticator_nonce@,
                old(self).replay_counter,
            ),
            counter matches Some(counter) ==> {
                &&& counter as nat == replay_counter(envelope(old(buffer)@))
                &&& counter > old(self).replay_counter
                &&& *final(self) == (Message3Replay { replay_counter: counter, ..*old(self) })
            },
            counter is None ==> *final(self) == *old(self),
            final(buffer)@ == decoded_buffer(
                old(buffer)@,
                is_message_3(old(buffer)@, old(scratch)@.len(), own_address@, bssid@),
                kck@,
                kek@,
            ),
            final(scratch)@.len() == old(scratch)@.len(),
    {
        // The decoder assumes that all lengths are sound, so the framing is checked before.
        match carried_envelope(buffer, own_address, bssid) {
            Some(eapol) => {
                let key_data_length: usize = eapol.len() - ENVELOPE_LENGTH;
                if read_be16(eapol, 5) != MESSAGE_3_INFORMATION || read_be16(eapol, 7) != 16
                    || key_data_length < 24 || key_data_length % 8 != 0 || key_data_length - 8
                    > scratch.len() {
                    return None;
                }
            },
            None => {
                return None;
            },
        }
        proof {
            lemma_mic_and_encryption_announced(envelope(buffer@));
        }
        let key = match decode_eapol_key(buffer, scratch, kck, kek) {
            Some(key) => key,
            None => {
                return None;
            },
        };
        if !bytes_equal(&key.key_nonce, &self.authenticator_nonce) || key.key_replay_counter
            <= self.replay_counter {
            return None;
        }
        match find_gtk(&key.key_data) {
            Some(received) => {
                if !bytes_equal(&received.gtk, gtk) || received.key_id != gtk_id {
                    return None;
                }
            },
            None => {
                return None;
            },
        }
        self.replay_counter = key.key_replay_counter;
        Some(self.replay_counter)
    }
}

/// Whether the protocol version of an envelope is one that IEEE 802.1X defines.
pub open spec fn known_version(envelope: Seq<u8>) -> bool {
    1 <= envelope[0] <= 3
}

/// Get the envelope of a key frame from `bssid` to `own`, of a group key handshake.
pub fn group_key_payload<'a>(buffer: &'a [u8], own: MACAddress, bssid: MACAddress) -> (payload:
    Option<&'a [u8]>)
    ensures
        payload is Some == (carries_envelope(buffer@, own@, bssid@) && known_version(
            envelope(buffer@),
        )),
        payload matches Some(payload) ==> payload@ == envelope(buffer@),
{
    let eapol = match carried_envelope(buffer, own, bssid) {
        Some(eapol) => eapol,
        None => {
            return None;
        },
    };
    if eapol[0] < 1 || eapol[0] > 3 {
        return None;
    }
    Some(eapol)
}

/// Get the envelope of a key frame from `bssid` to `own`, of a pairwise key handshake.
pub fn key_payload<'a>(buffer: &'a [u8], own: MACAddress, bssid: MACAddress) -> (payload: Option<
    &'a [u8],
>)
    ensures
        payload is Some == (carries_envelope(buffer@, own@, bssid@) && known_version(
            envelope(buffer@),
        ) && key_length(envelope(buffer@)) == 16),
        payload matches Some(payload) ==> payload@ == envelope(buffer@),
{
    let eapol = match group_key_payload(buffer, own, bssid) {
        Some(eapol) => eapol,
        None => {
            return None;
        },
    };
    if read_be16(eapol, 7) != 16 {
        return None;
    }
    Some(eapol)
}

/// The contents of an authenticated message 3.
pub struct Message3 {
    /// Replay counter.
    pub counter: u64,
    /// Nonce of the access point.
    pub nonce: [u8; 32],
    /// Group key.
    pub gtk: [u8; 16],
    /// Identifier of the group key.
    pub gtk_id: u8,
}

/// Whether a frame is an authentic message 3 with a group key of sixteen bytes.
pub open spec fn is_authentic_message_3(
    frame: Seq<u8>,
    scratch: nat,
    kck: Seq<u8>,
    kek: Seq<u8>,
    own: Seq<u8>,
    bssid: Seq<u8>,
) -> bool {
    &&& is_message_3(frame, scratch, own, bssid)
    &&& known_version(envelope(frame))
    &&& carries_group_key(kck, kek, envelope(frame))
}

/// Whether `envelope` is authentic and holds a group key of sixteen bytes.
pub open spec fn carries_group_key(kck: Seq<u8>, kek: Seq<u8>, envelope: Seq<u8>) -> bool {
    authentic_key_data(kck, kek, envelope) matches Some(plain) && first_gtk(plain) matches Some(gtk)
        && gtk.1.len() == 16
}

/// The group key in an authentic envelope: its key identifier and key.
pub open spec fn group_key_of(kck: Seq<u8>, kek: Seq<u8>, envelope: Seq<u8>) -> (u8, Seq<u8>) {
    first_gtk(authentic_key_data(kck, kek, envelope)->Some_0)->Some_0
}

impl Message3 {
    /// Whether these are the contents of the message 3 in `frame`.
    pub open spec fn read_from(&self, frame: Seq<u8>, kck: Seq<u8>, kek: Seq<u8>) -> bool {
        &&& self.counter as nat == replay_counter(envelope(frame))
        &&& self.nonce@ == key_nonce(envelope(frame))
        &&& (self.gtk_id, self.gtk@) == group_key_of(kck, kek, envelope(frame))
    }
}

/// Check and decode message 3.
pub fn decrypt_message_3(
    buffer: &mut [u8],
    scratch: &mut [u8],
    kck: &[u8; 16],
    kek: &[u8; 16],
    own: MACAddress,
    bssid: MACAddress,
) -> (message: Option<Message3>)
    ensures
        message is Some == is_authentic_message_3(
            old(buffer)@,
            old(scratch)@.len(),
            kck@,
            kek@,
            own@,
            bssid@,
        ),
        message matches Some(message) ==> message.read_from(old(buffer)@, kck@, kek@),
        final(buffer)@ == decoded_buffer(
            old(buffer)@,
            is_message_3(old(buffer)@, old(scratch)@.len(), own@, bssid@) && known_version(
                envelope(old(buffer)@),
            ),
            kck@,
            kek@,
        ),
        final(scratch)@.len() == old(scratch)@.len(),
{
    match key_payload(buffer, own, bssid) {
        Some(eapol) => {
            let key_data_length: usize = eapol.len() - ENVELOPE_LENGTH;
            if read_be16(eapol, 5) != MESSAGE_3_INFORMATION || key_data_length < 24
                || key_data_length % 8 != 0 || key_data_length - 8 > scratch.len() {
                return None;
            }
        },
        None => {
            return None;
        },
    }
    proof {
        lemma_mic_and_encryption_announced(envelope(buffer@));
    }
    let key = match decode_eapol_key(buffer, scratch, kck, kek) {
        Some(key) => key,
        None => {
            return None;
        },
    };
    match find_gtk(&key.key_data) {
        Some(gtk) => {
            if gtk.gtk.len() != 16 {
                return None;
            }
            Some(
                Message3 {
                    counter: key.key_replay_counter,
                    nonce: key.key_nonce,
                    gtk: to_array::<16>(&gtk.gtk),
                    gtk_id: gtk.key_id,
                },
            )
        },
        None => None,
    }
}

} // verus!

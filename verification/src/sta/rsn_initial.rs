//! Pending WPA2-PSK exchange. No installed keys or data packet counters live here.
use vstd::prelude::*;

use super::rsn_retransmit::{
    carries_envelope, decoded_buffer, decrypt_message_3, is_authentic_message_3, is_message_3,
    key_payload, known_version, Message3,
};
use crate::bytes::{bytes_equal, read_be16, read_be64, to_array};
use crate::eapol::{envelope, key_information, key_length, key_nonce, replay_counter};
use crate::mac::MACAddress;

verus! {

/// Key information of message 1: version 2, pairwise and ACK.
pub const MESSAGE_1_INFORMATION: u16 = 0x008a;

/// Whether `frame` is message 1, from `bssid` to `own`.
pub open spec fn is_message_1(frame: Seq<u8>, own: Seq<u8>, bssid: Seq<u8>) -> bool {
    &&& carries_envelope(frame, own, bssid)
    &&& known_version(envelope(frame))
    &&& key_length(envelope(frame)) == 16
    &&& key_information(envelope(frame)) == MESSAGE_1_INFORMATION
}

/// A handshake of which message 1 has arrived.
pub struct InitialHandshake {
    /// Nonce of the access point.
    pub authenticator_nonce: [u8; 32],
    /// The largest replay counter accepted so far.
    pub replay_counter: u64,
}

impl InitialHandshake {
    /// Start a handshake from message 1.
    ///
    /// Message 1 has no MIC and is unauthenticated; it may request only message 2 as a reply.
    pub fn from_message_1(buffer: &[u8], own: MACAddress, bssid: MACAddress) -> (handshake: Option<
        Self,
    >)
        ensures
            handshake is Some == is_message_1(buffer@, own@, bssid@),
            handshake matches Some(handshake) ==> {
                &&& handshake.authenticator_nonce@ == key_nonce(envelope(buffer@))
                &&& handshake.replay_counter as nat == replay_counter(envelope(buffer@))
            },
    {
        let key = match key_payload(buffer, own, bssid) {
            Some(key) => key,
            None => {
                return None;
            },
        };
        if read_be16(key, 5) != MESSAGE_1_INFORMATION {
            return None;
        }
        Some(
            Self {
                authenticator_nonce: to_array::<32>(&key[17..49]),
                replay_counter: read_be64(key, 9),
            },
        )
    }

    /// Accept a retransmission of message 1, which is to be answered by message 2.
    ///
    /// Equal counters permit retransmission of an identical message 1. A different nonce is a new
    /// exchange, which this does not recover.
    pub fn message_1_retry(&mut self, buffer: &[u8], own: MACAddress, bssid: MACAddress) -> (counter:
        Option<u64>)
        ensures
            counter is Some == (is_message_1(buffer@, own@, bssid@) && key_nonce(envelope(buffer@))
                == old(self).authenticator_nonce@ && replay_counter(envelope(buffer@))
                >= old(self).replay_counter),
            counter matches Some(counter) ==> {
                &&& counter as nat == replay_counter(envelope(buffer@))
                &&& *final(self) == (InitialHandshake { replay_counter: counter, ..*old(self) })
            },
            counter is None ==> *final(self) == *old(self),
    {
        let retry = match Self::from_message_1(buffer, own, bssid) {
            Some(retry) => retry,
            None => {
                return None;
            },
        };
        if !bytes_equal(&retry.authenticator_nonce, &self.authenticator_nonce)
            || retry.replay_counter < self.replay_counter {
            return None;
        }
        self.replay_counter = retry.replay_counter;
        Some(self.replay_counter)
    }

    /// Accept message 3.
    ///
    /// The counter advances only after MIC, nonce, lengths and group key were validated.
    pub fn message_3(
        &mut self,
        buffer: &mut [u8],
        scratch: &mut [u8],
        kck: &[u8; 16],
        kek: &[u8; 16],
        own: MACAddress,
        bssid: MACAddress,
    ) -> (message: Option<Message3>)
        ensures
            message is Some == (is_authentic_message_3(
                old(buffer)@,
                old(scratch)@.len(),
                kck@,
                kek@,
                own@,
                bssid@,
            ) && key_nonce(envelope(old(buffer)@)) == old(self).authenticator_nonce@
                && replay_counter(envelope(old(buffer)@)) > old(self).replay_counter),
            message matches Some(message) ==> {
                &&& message.read_from(old(buffer)@, kck@, kek@)
                &&& *final(self) == (InitialHandshake {
                    replay_counter: message.counter,
                    ..*old(self)
                })
            },
            message is None ==> *final(self) == *old(self),
            final(buffer)@ == decoded_buffer(
                old(buffer)@,
                is_message_3(old(buffer)@, old(scratch)@.len(), own@, bssid@) && known_version(
                    envelope(old(buffer)@),
                ),
                kck@,
                kek@,
            ),
            final(scratch)@.len() == old(scratch)@.len(),
    {
        let key = match decrypt_message_3(buffer, scratch, kck, kek, own, bssid) {
            Some(key) => key,
            None => {
                return None;
            },
        };
        if !bytes_equal(&key.nonce, &self.authenticator_nonce) || key.counter
            <= self.replay_counter {
            return None;
        }
        self.replay_counter = key.counter;
        Some(key)
    }
}

} // verus!

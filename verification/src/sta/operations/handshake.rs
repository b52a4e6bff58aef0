//! The four way handshake and the group key handshake, from the side of the station.
//!
//! Waiting for frames and for the radio is up to the caller. What is sent, what a frame means and
//! what comes next is decided here.
use vstd::prelude::*;

use crate::bytes::{lemma_le_bytes_length, to_array};
use crate::eapol::{
    authentic_key_data, eapol_frame, encode_eapol_key, envelope, key_nonce,
    lemma_eapol_frame_length, replay_counter, wpa2_personal, wpa2_personal_element,
    EapolKeyFields,
};
use crate::elements::{first_element, is_gtk, ELEMENT_VENDOR};
use crate::frame::{data_header_length, has_flag, is_data_frame, FLAG_PROTECTED, MAX_PN};
use crate::mac::MACAddress;
use crate::radio::{TxError, TxMacParameters, TxPhyRate, TxPlcpParameters};
use crate::sta::rsn::{
    partition_ptk, CryptoState, GroupAssociation, PairwiseAssociation,
    SecurityAssociations, TransientKeySecurityAssociation, CIPHER_CCMP_128, WPA2_PSK_AKM,
};
use crate::sta::rsn_group::{protect_eapol, with_crypto_header};
use crate::sta::rsn_initial::{is_message_1, InitialHandshake};
use crate::sta::rsn_retransmit::{
    carries_group_key, group_key_of, is_authentic_message_3, Message3Replay,
};
use crate::sta::{StaError, StaTxRx};
use crate::tx_queue::RetryBehaviour;
use crate::util::operations::deauth::Transmission;

verus! {

/// How much of a transmit buffer an EAPOL frame may take; the rest is scratch space.
pub const EAPOL_BUFFER_LENGTH: usize = 500;
/// Key information of message 2: version 2, pairwise and MIC.
pub const MESSAGE_2_INFORMATION: u16 = 0x010a;
/// Key information of message 4: version 2, pairwise, MIC and secure.
pub const MESSAGE_4_INFORMATION: u16 = 0x030a;
/// Key information of group message 2: version 2, MIC and secure.
pub const GROUP_MESSAGE_2_INFORMATION: u16 = 0x0302;
/// Key information of a request for a group key: version 2, MIC, secure and request.
pub const GROUP_REQUEST_INFORMATION: u16 = 0x0b02;

/// Key information that asks for a MIC, and for no encryption of the key data.
proof fn lemma_information_bits()
    ensures
        MESSAGE_2_INFORMATION & 0x0100 != 0,
        MESSAGE_2_INFORMATION & 0x1000 == 0,
        MESSAGE_4_INFORMATION & 0x0100 != 0,
        MESSAGE_4_INFORMATION & 0x1000 == 0,
        GROUP_MESSAGE_2_INFORMATION & 0x0100 != 0,
        GROUP_MESSAGE_2_INFORMATION & 0x1000 == 0,
        GROUP_REQUEST_INFORMATION & 0x0100 != 0,
        GROUP_REQUEST_INFORMATION & 0x1000 == 0,
{
    assert(0x010au16 & 0x0100 != 0 && 0x010au16 & 0x1000 == 0 && 0x030au16 & 0x0100 != 0
        && 0x030au16 & 0x1000 == 0 && 0x0302u16 & 0x0100 != 0 && 0x0302u16 & 0x1000 == 0
        && 0x0b02u16 & 0x0100 != 0 && 0x0b02u16 & 0x1000 == 0) by (bit_vector);
}

/// How EAPOL frames are transmitted: the radio assigns the sequence number.
pub open spec fn eapol_transmission(length: usize, rate: TxPhyRate, key_slot: Option<u8>)
    -> Transmission {
    Transmission {
        length,
        plcp_parameters: TxPlcpParameters { rate },
        mac_parameters: TxMacParameters {
            key_slot_index: key_slot,
            wait_for_ack: false,
            override_seq_num: true,
        },
        retry_behaviour: RetryBehaviour::RetryUntil(7),
    }
}

/// Write an EAPOL key frame, with the specified parameters.
pub fn send_eapol_key_frame(
    buffer: &mut [u8],
    rate: TxPhyRate,
    bssid: MACAddress,
    own_address: MACAddress,
    payload: &EapolKeyFields,
    key_data: &[u8],
    kck: &[u8; 16],
) -> (transmission: Transmission)
    requires
        old(buffer)@.len() >= EAPOL_BUFFER_LENGTH + 24,
        key_data@.len() + 131 <= EAPOL_BUFFER_LENGTH,
        payload.key_information & 0x0100 != 0,
        payload.key_information & 0x1000 == 0,
    ensures
        final(buffer)@.len() == old(buffer)@.len(),
        transmission == eapol_transmission((131 + key_data@.len()) as usize, rate, None),
        final(buffer)@.subrange(0, transmission.length as int) == eapol_frame(
            bssid@,
            own_address@,
            *payload,
            key_data@,
            kck@,
        ),
{
    let (frame_buffer, scratch) = buffer.split_at_mut(EAPOL_BUFFER_LENGTH);
    let length: usize = encode_eapol_key(
        bssid,
        own_address,
        payload,
        key_data,
        kck,
        frame_buffer,
        scratch,
    );
    proof {
        lemma_eapol_frame_length(bssid@, own_address@, *payload, key_data@, kck@);
        assert(buffer@.subrange(0, length as int) =~= eapol_frame(
            bssid@,
            own_address@,
            *payload,
            key_data@,
            kck@,
        ));
    }
    Transmission {
        length,
        plcp_parameters: TxPlcpParameters { rate },
        mac_parameters: TxMacParameters {
            key_slot_index: None,
            wait_for_ack: false,
            override_seq_num: true,
        },
        retry_behaviour: RetryBehaviour::RetryUntil(7),
    }
}

/// The fields of message 2.
pub open spec fn message_2_fields(supplicant_nonce: [u8; 32], counter: u64) -> EapolKeyFields {
    EapolKeyFields {
        key_information: MESSAGE_2_INFORMATION,
        key_length: 16,
        key_replay_counter: counter,
        key_nonce: supplicant_nonce,
    }
}

/// The fields of message 4.
pub open spec fn message_4_fields(supplicant_nonce: [u8; 32], counter: u64) -> EapolKeyFields {
    EapolKeyFields {
        key_information: MESSAGE_4_INFORMATION,
        key_length: 16,
        key_replay_counter: counter,
        key_nonce: supplicant_nonce,
    }
}

/// Write message 2, which tells the access point our nonce and the ciphers we ask for.
pub fn send_message_2(
    buffer: &mut [u8],
    rate: TxPhyRate,
    bssid: MACAddress,
    own_address: MACAddress,
    kck: &[u8; 16],
    supplicant_nonce: &[u8; 32],
    key_replay_counter: u64,
) -> (transmission: Transmission)
    requires
        old(buffer)@.len() >= EAPOL_BUFFER_LENGTH + 24,
    ensures
        final(buffer)@.len() == old(buffer)@.len(),
        transmission == eapol_transmission(153, rate, None),
        final(buffer)@.subrange(0, 153) == eapol_frame(
            bssid@,
            own_address@,
            message_2_fields(*supplicant_nonce, key_replay_counter),
            wpa2_personal(),
            kck@,
        ),
{
    proof {
        lemma_information_bits();
    }
    let element = wpa2_personal_element();
    send_eapol_key_frame(
        buffer,
        rate,
        bssid,
        own_address,
        &EapolKeyFields {
            key_information: MESSAGE_2_INFORMATION,
            key_length: 16,
            key_replay_counter,
            key_nonce: *supplicant_nonce,
        },
        &element,
        kck,
    )
}

/// Write message 4, which acknowledges message 3.
///
/// It is sent in the clear: where it was lost, the access point may still lack the pairwise key.
pub fn send_message_4(
    buffer: &mut [u8],
    rate: TxPhyRate,
    bssid: MACAddress,
    own_address: MACAddress,
    kck: &[u8; 16],
    supplicant_nonce: &[u8; 32],
    key_replay_counter: u64,
) -> (transmission: Transmission)
    requires
        old(buffer)@.len() >= EAPOL_BUFFER_LENGTH + 24,
    ensures
        final(buffer)@.len() == old(buffer)@.len(),
        transmission == eapol_transmission(131, rate, None),
        final(buffer)@.subrange(0, 131) == eapol_frame(
            bssid@,
            own_address@,
            message_4_fields(*supplicant_nonce, key_replay_counter),
            Seq::<u8>::empty(),
            kck@,
        ),
{
    proof {
        lemma_information_bits();
    }
    let no_key_data: Vec<u8> = Vec::new();
    let transmission = send_eapol_key_frame(
        buffer,
        rate,
        bssid,
        own_address,
        &EapolKeyFields {
            key_information: MESSAGE_4_INFORMATION,
            key_length: 16,
            key_replay_counter,
            key_nonce: *supplicant_nonce,
        },
        &no_key_data,
        kck,
    );
    assert(no_key_data@ =~= Seq::<u8>::empty());
    transmission
}

/// The fields of a message of the group key handshake that this station sends.
pub open spec fn group_message_fields(fields: EapolKeyFields, information: u16, counter: u64)
    -> bool {
    &&& fields.key_information == information
    &&& fields.key_length == 0
    &&& fields.key_replay_counter == counter
    &&& fields.key_nonce@ == Seq::new(32, |i: int| 0u8)
}

/// A frame to the access point is a data frame without protection, whose header has 24 bytes.
proof fn lemma_uplink_header(
    bssid: Seq<u8>,
    own: Seq<u8>,
    fields: EapolKeyFields,
    data: Seq<u8>,
    kck: Seq<u8>,
    frame: Seq<u8>,
)
    requires
        bssid.len() == 6,
        own.len() == 6,
        frame == eapol_frame(bssid, own, fields, data, kck),
        frame.len() >= 131,
    ensures
        is_data_frame(frame),
        data_header_length(frame) == 24,
        !has_flag(frame, FLAG_PROTECTED),
{
    assert(frame[0] == 0x08 && frame[1] == 0x01);
    assert((0x08u8 >> 2) & 3 == 2 && 0x08u8 >> 4 == 0 && 0x01u8 & 0x02 == 0 && 0x01u8 & 0x40 == 0
        && 0x01u8 & 0x80 == 0) by (bit_vector);
}

/// What sending a protected message of the group key handshake leads to.
///
/// It takes one packet number of the pairwise key. Without established keys nothing is sent, and
/// neither is a message for which packet numbers have run out.
pub open spec fn protected_key_frame_sent(
    before: StaTxRx,
    after: StaTxRx,
    buffer: Seq<u8>,
    bssid: Seq<u8>,
    own: Seq<u8>,
    kck: Seq<u8>,
    information: u16,
    counter: u64,
    result: Result<Transmission, StaError>,
) -> bool {
    match before.crypto_state {
        None => {
            &&& result == Err::<Transmission, StaError>(StaError::GroupKeyHandshakeFailure)
            &&& after == before
        },
        Some(state) => {
            let pn = state.security_associations.ptksa.packet_number;
            &&& after.takes_packet_number(before)
            &&& if 0 < pn <= MAX_PN {
                &&& result == Ok::<Transmission, StaError>(
                    eapol_transmission(147, before.phy_rate, Some(state.ptk_key_slot.key_slot)),
                )
                &&& exists|fields: EapolKeyFields|
                    {
                        &&& group_message_fields(fields, information, counter)
                        &&& buffer.subrange(0, 147) == with_crypto_header(
                            #[trigger] eapol_frame(bssid, own, fields, Seq::<u8>::empty(), kck),
                            pn,
                        ) + Seq::new(8, |i: int| 0u8)
                    }
            } else {
                result == Err::<Transmission, StaError>(StaError::GroupKeyHandshakeFailure)
            }
        },
    }
}

impl StaTxRx {
    /// Whether this is `before` after one packet number of the pairwise key was taken.
    pub open spec fn takes_packet_number(&self, before: StaTxRx) -> bool {
        match (before.crypto_state, self.crypto_state) {
            (Some(old_state), Some(new_state)) => {
                let pn = old_state.security_associations.ptksa.packet_number;
                &&& *self == (StaTxRx { crypto_state: Some(new_state), ..before })
                &&& new_state == (CryptoState {
                    security_associations: SecurityAssociations {
                        ptksa: TransientKeySecurityAssociation {
                            packet_number: if pn == u64::MAX {
                                0
                            } else {
                                (pn + 1) as u64
                            },
                            ..old_state.security_associations.ptksa
                        },
                        ..old_state.security_associations
                    },
                    ..old_state
                })
            },
            _ => false,
        }
    }
}

/// Write a message of the group key handshake, protected by the pairwise key.
fn send_protected_key_frame(
    sta_tx_rx: &mut StaTxRx,
    buffer: &mut [u8],
    bssid: MACAddress,
    own_address: MACAddress,
    kck: &[u8; 16],
    key_information: u16,
    key_replay_counter: u64,
) -> (result: Result<Transmission, StaError>)
    requires
        old(buffer)@.len() >= EAPOL_BUFFER_LENGTH + 24,
        key_information & 0x0100 != 0,
        key_information & 0x1000 == 0,
    ensures
        final(buffer)@.len() == old(buffer)@.len(),
        protected_key_frame_sent(
            *old(sta_tx_rx),
            *final(sta_tx_rx),
            final(buffer)@,
            bssid@,
            own_address@,
            kck@,
            key_information,
            key_replay_counter,
            result,
        ),
{
    let rate = sta_tx_rx.phy_rate;
    let (packet_number, key_slot) = match &mut sta_tx_rx.crypto_state {
        Some(state) => (
            state.security_associations.ptksa.next_packet_number(),
            state.ptk_key_slot.key_slot,
        ),
        None => {
            return Err(StaError::GroupKeyHandshakeFailure);
        },
    };
    assert(sta_tx_rx.takes_packet_number(*old(sta_tx_rx)));
    let fields = EapolKeyFields {
        key_information,
        key_length: 0,
        key_replay_counter,
        key_nonce: [0; 32],
    };
    assert(fields.key_nonce@ =~= Seq::new(32, |i: int| 0u8));
    let no_key_data: Vec<u8> = Vec::new();
    let transmission = send_eapol_key_frame(
        buffer,
        rate,
        bssid,
        own_address,
        &fields,
        &no_key_data,
        kck,
    );
    let ghost frame = buffer@.subrange(0, 131);
    proof {
        assert(no_key_data@ =~= Seq::<u8>::empty());
        lemma_uplink_header(bssid@, own_address@, fields, no_key_data@, kck@, frame);
        assert(buffer@[1] == frame[1]);
    }
    match protect_eapol(buffer, transmission.length, packet_number) {
        Some(length) => {
            proof {
                lemma_le_bytes_length(packet_number as nat, 6);
                assert(buffer@.subrange(0, 147) =~= with_crypto_header(frame, packet_number)
                    + Seq::new(8, |i: int| 0u8));
                assert(group_message_fields(fields, key_information, key_replay_counter));
            }
            Ok(
                Transmission {
                    length,
                    plcp_parameters: TxPlcpParameters { rate },
                    mac_parameters: TxMacParameters {
                        key_slot_index: Some(key_slot),
                        wait_for_ack: false,
                        override_seq_num: true,
                    },
                    retry_behaviour: RetryBehaviour::RetryUntil(7),
                },
            )
        },
        None => Err(StaError::GroupKeyHandshakeFailure),
    }
}

/// Write group message 2, which acknowledges group message 1.
pub fn send_group_message_2(
    sta_tx_rx: &mut StaTxRx,
    buffer: &mut [u8],
    bssid: MACAddress,
    own_address: MACAddress,
    kck: &[u8; 16],
    key_replay_counter: u64,
) -> (result: Result<Transmission, StaError>)
    requires
        old(buffer)@.len() >= EAPOL_BUFFER_LENGTH + 24,
    ensures
        final(buffer)@.len() == old(buffer)@.len(),
        protected_key_frame_sent(
            *old(sta_tx_rx),
            *final(sta_tx_rx),
            final(buffer)@,
            bssid@,
            own_address@,
            kck@,
            GROUP_MESSAGE_2_INFORMATION,
            key_replay_counter,
            result,
        ),
{
    proof {
        lemma_information_bits();
    }
    send_protected_key_frame(
        sta_tx_rx,
        buffer,
        bssid,
        own_address,
        kck,
        GROUP_MESSAGE_2_INFORMATION,
        key_replay_counter,
    )
}

/// Write a request for a group key.
pub fn send_group_request(
    sta_tx_rx: &mut StaTxRx,
    buffer: &mut [u8],
    bssid: MACAddress,
    own_address: MACAddress,
    kck: &[u8; 16],
    key_replay_counter: u64,
) -> (result: Result<Transmission, StaError>)
    requires
        old(buffer)@.len() >= EAPOL_BUFFER_LENGTH + 24,
    ensures
        final(buffer)@.len() == old(buffer)@.len(),
        protected_key_frame_sent(
            *old(sta_tx_rx),
            *final(sta_tx_rx),
            final(buffer)@,
            bssid@,
            own_address@,
            kck@,
            GROUP_REQUEST_INFORMATION,
            key_replay_counter,
            result,
        ),
{
    proof {
        lemma_information_bits();
    }
    send_protected_key_frame(
        sta_tx_rx,
        buffer,
        bssid,
        own_address,
        kck,
        GROUP_REQUEST_INFORMATION,
        key_replay_counter,
    )
}

/// Whether an EAPOL frame was sent, going by its completion.
pub open spec fn eapol_sent(completion: Option<Result<u8, TxError>>) -> Result<(), StaError> {
    match completion {
        Some(Ok(_)) => Ok(()),
        Some(Err(_)) => Err(StaError::AckTimeout),
        None => Err(StaError::TxCompletionLost),
    }
}

/// Find out whether an EAPOL frame was sent. A missing completion counts as a failure.
pub fn eapol_send_result(completion: Option<Result<u8, TxError>>) -> (result: Result<(), StaError>)
    ensures
        result == eapol_sent(completion),
{
    match completion {
        Some(Ok(_)) => Ok(()),
        Some(Err(_)) => Err(StaError::AckTimeout),
        None => Err(StaError::TxCompletionLost),
    }
}

/// The first `length` bytes of the pairwise transient key that a master key, the addresses and the
/// nonces of both sides give.
pub uninterp spec fn derived_ptk(
    pmk: Seq<u8>,
    authenticator_address: Seq<u8>,
    supplicant_address: Seq<u8>,
    authenticator_nonce: Seq<u8>,
    supplicant_nonce: Seq<u8>,
    length: nat,
) -> Seq<u8>;

/// Derive a pairwise transient key.
///
/// Calls `ieee80211::crypto::derive_ptk`, a pseudo random function of all its inputs. The key is
/// named by [derived_ptk].
#[verifier::external_body]
fn derive_ptk(
    pmk: &[u8; 32],
    authenticator_address: MACAddress,
    supplicant_address: MACAddress,
    authenticator_nonce: &[u8; 32],
    supplicant_nonce: &[u8; 32],
    ptk: &mut [u8; 48],
)
    ensures
        final(ptk)@ == derived_ptk(
            pmk@,
            authenticator_address@,
            supplicant_address@,
            authenticator_nonce@,
            supplicant_nonce@,
            48,
        ),
{
    ieee80211::crypto::derive_ptk(
        pmk,
        &authenticator_address.0,
        &supplicant_address.0,
        authenticator_nonce,
        supplicant_nonce,
        ptk,
    )
}

/// What a frame means while message 3 is awaited.
pub enum Message3Step {
    /// Nothing.
    Ignored,
    /// The access point did not get message 2, which is to be sent again with this counter.
    ResendMessage2(u64),
    /// The handshake is authentic, and brings this group key.
    Accepted(GroupAssociation),
}

/// Whether a frame is a retransmission of message 1 that belongs to `handshake`.
pub open spec fn is_message_1_retry(
    handshake: InitialHandshake,
    frame: Seq<u8>,
    own: Seq<u8>,
    bssid: Seq<u8>,
) -> bool {
    &&& is_message_1(frame, own, bssid)
    &&& key_nonce(envelope(frame)) == handshake.authenticator_nonce@
    &&& replay_counter(envelope(frame)) >= handshake.replay_counter
}

/// Whether a frame is the message 3 that `handshake` waits for.
pub open spec fn is_awaited_message_3(
    handshake: InitialHandshake,
    frame: Seq<u8>,
    scratch: nat,
    kck: Seq<u8>,
    kek: Seq<u8>,
    own: Seq<u8>,
    bssid: Seq<u8>,
) -> bool {
    &&& is_authentic_message_3(frame, scratch, kck, kek, own, bssid)
    &&& key_nonce(envelope(frame)) == handshake.authenticator_nonce@
    &&& replay_counter(envelope(frame)) > handshake.replay_counter
}

/// Find out what a frame means while message 3 is awaited.
pub fn process_message_3(
    handshake: &mut InitialHandshake,
    frame: &mut [u8],
    scratch: &mut [u8],
    kck: &[u8; 16],
    kek: &[u8; 16],
    own_address: MACAddress,
    bssid: MACAddress,
) -> (step: Message3Step)
    ensures
        final(scratch)@.len() == old(scratch)@.len(),
        if is_message_1_retry(*old(handshake), old(frame)@, own_address@, bssid@) {
            let counter = replay_counter(envelope(old(frame)@)) as u64;
            &&& step == Message3Step::ResendMessage2(counter)
            &&& counter as nat == replay_counter(envelope(old(frame)@))
            &&& *final(handshake) == (InitialHandshake {
                replay_counter: counter,
                ..*old(handshake)
            })
        } else if is_awaited_message_3(
            *old(handshake),
            old(frame)@,
            old(scratch)@.len(),
            kck@,
            kek@,
            own_address@,
            bssid@,
        ) {
            &&& step matches Message3Step::Accepted(gtk)
            &&& (gtk.key_id, gtk.key@) == group_key_of(kck@, kek@, envelope(old(frame)@))
            &&& gtk.key_id < 4
            &&& gtk.replay_counter == 0
            &&& gtk.packet_number == 1
            &&& final(handshake).replay_counter as nat == replay_counter(envelope(old(frame)@))
            &&& final(handshake).authenticator_nonce == old(handshake).authenticator_nonce
        } else {
            step is Ignored && *final(handshake) == *old(handshake)
        },
{
    if let Some(counter) = handshake.message_1_retry(frame, own_address, bssid) {
        return Message3Step::ResendMessage2(counter);
    }
    match handshake.message_3(frame, scratch, kck, kek, own_address, bssid) {
        Some(message) => {
            proof {
                lemma_gtk_id_in_range(kck@, kek@, envelope(old(frame)@));
            }
            Message3Step::Accepted(
                TransientKeySecurityAssociation::new(message.gtk, message.gtk_id),
            )
        },
        None => Message3Step::Ignored,
    }
}

/// The identifier of a group key has two bits.
proof fn lemma_gtk_id_in_range(kck: Seq<u8>, kek: Seq<u8>, envelope: Seq<u8>)
    requires
        carries_group_key(kck, kek, envelope),
    ensures
        group_key_of(kck, kek, envelope).0 < 4,
{
    let plain = authentic_key_data(kck, kek, envelope)->Some_0;
    let contents = first_element(
        plain,
        ELEMENT_VENDOR,
        |contents: Seq<u8>| is_gtk(contents),
    )->Some_0;
    let information = contents[4];
    assert(information & 3 < 4) by (bit_vector);
}

/// What a handshake is about.
pub struct HandshakeParameters {
    /// The pairwise master key.
    pub pmk: [u8; 32],
    /// Our own address.
    pub own_address: MACAddress,
    /// The address of the access point.
    pub bssid: MACAddress,
    /// Our nonce, which must be random.
    pub supplicant_nonce: [u8; 32],
}

/// Keys that are not confirmed yet.
pub struct PendingKeys {
    /// The exchange.
    pub handshake: InitialHandshake,
    /// The pairwise transient key.
    pub ptk: [u8; 48],
}

impl PendingKeys {
    /// The key confirmation key.
    pub open spec fn kck(&self) -> Seq<u8> {
        self.ptk@.subrange(0, 16)
    }

    /// The key encryption key.
    pub open spec fn kek(&self) -> Seq<u8> {
        self.ptk@.subrange(16, 32)
    }

    /// Whether these are the keys of the exchange that message 1 in `frame` started.
    pub open spec fn started_by(&self, parameters: HandshakeParameters, frame: Seq<u8>) -> bool {
        &&& self.handshake.authenticator_nonce@ == key_nonce(envelope(frame))
        &&& self.handshake.replay_counter as nat == replay_counter(envelope(frame))
        &&& self.ptk@ == derived_ptk(
            parameters.pmk@,
            parameters.bssid@,
            parameters.own_address@,
            self.handshake.authenticator_nonce@,
            parameters.supplicant_nonce@,
            48,
        )
    }

    /// Get the confirmation key and the encryption key.
    fn confirmation_and_encryption_key(&self) -> (keys: ([u8; 16], [u8; 16]))
        ensures
            keys.0@ == self.kck(),
            keys.1@ == self.kek(),
    {
        let (kck, kek, _) = partition_ptk(&self.ptk, WPA2_PSK_AKM, CIPHER_CCMP_128).unwrap();
        (to_array::<16>(kck), to_array::<16>(kek))
    }
}

/// State of a four way handshake.
pub enum HandshakeState {
    /// Message 1 is awaited.
    WaitMessage1,
    /// Message 2 is being sent.
    SendMessage2(PendingKeys),
    /// Message 3 is awaited.
    WaitMessage3(PendingKeys),
    /// Message 4 is being sent.
    SendMessage4(PendingKeys, GroupAssociation),
    /// The handshake is over.
    Finished,
}

/// The next step of a four way handshake.
pub enum HandshakeAction {
    /// Wait for a frame.
    Receive,
    /// Send the frame in the buffer.
    Transmit(Transmission),
    /// Use the keys.
    Complete(SecurityAssociations, Message3Replay),
    /// Give up.
    Fail(StaError),
}

/// What a frame that arrives during a four way handshake leads to.
///
/// Message 1 is answered by message 2, again where it is repeated, and message 3 by message 4. All
/// other frames are passed over.
pub open spec fn handshake_step(
    parameters: HandshakeParameters,
    state: HandshakeState,
    frame: Seq<u8>,
    scratch: nat,
    buffer: Seq<u8>,
    rate: TxPhyRate,
    next: (HandshakeState, HandshakeAction),
) -> bool {
    match state {
        HandshakeState::WaitMessage1 => {
            if is_message_1(frame, parameters.own_address@, parameters.bssid@) {
                &&& next.0 matches HandshakeState::SendMessage2(keys)
                &&& keys.started_by(parameters, frame)
                &&& next.1 == HandshakeAction::Transmit(eapol_transmission(153, rate, None))
                &&& is_message_2(parameters, keys, buffer)
            } else {
                &&& next.0 is WaitMessage1
                &&& next.1 is Receive
            }
        },
        HandshakeState::WaitMessage3(keys) => {
            if is_message_1_retry(
                keys.handshake,
                frame,
                parameters.own_address@,
                parameters.bssid@,
            ) {
                &&& next.0 matches HandshakeState::SendMessage2(kept)
                &&& kept.ptk == keys.ptk
                &&& kept.handshake.authenticator_nonce == keys.handshake.authenticator_nonce
                &&& kept.handshake.replay_counter as nat == replay_counter(
                    envelope(frame),
                )
                &&& next.1 == HandshakeAction::Transmit(eapol_transmission(153, rate, None))
                &&& is_message_2(parameters, kept, buffer)
            } else if is_awaited_message_3(
                keys.handshake,
                frame,
                scratch,
                keys.kck(),
                keys.kek(),
                parameters.own_address@,
                parameters.bssid@,
            ) {
                &&& next.0 matches HandshakeState::SendMessage4(kept, gtk)
                &&& kept.ptk == keys.ptk
                &&& kept.handshake.authenticator_nonce == keys.handshake.authenticator_nonce
                &&& kept.handshake.replay_counter as nat == replay_counter(
                    envelope(frame),
                )
                &&& (gtk.key_id, gtk.key@) == group_key_of(
                    keys.kck(),
                    keys.kek(),
                    envelope(frame),
                )
                &&& gtk.key_id < 4
                &&& gtk.replay_counter == 0
                &&& gtk.packet_number == 1
                &&& next.1 == HandshakeAction::Transmit(eapol_transmission(131, rate, None))
                &&& is_message_4(parameters, kept, buffer)
            } else {
                &&& next.0 == state
                &&& next.1 is Receive
            }
        },
        _ => true,
    }
}

/// Take a frame that arrives during a four way handshake.
pub fn handshake_frame(
    parameters: &HandshakeParameters,
    state: HandshakeState,
    frame: &mut [u8],
    scratch: &mut [u8],
    buffer: &mut [u8],
    rate: TxPhyRate,
) -> (next: (HandshakeState, HandshakeAction))
    requires
        state is WaitMessage1 || state is WaitMessage3,
        old(buffer)@.len() >= EAPOL_BUFFER_LENGTH + 24,
    ensures
        final(buffer)@.len() == old(buffer)@.len(),
        final(scratch)@.len() == old(scratch)@.len(),
        handshake_step(
            *parameters,
            state,
            old(frame)@,
            old(scratch)@.len(),
            final(buffer)@,
            rate,
            next,
        ),
{
    match state {
        HandshakeState::WaitMessage1 => {
            let handshake = match InitialHandshake::from_message_1(
                frame,
                parameters.own_address,
                parameters.bssid,
            ) {
                Some(handshake) => handshake,
                None => {
                    return (HandshakeState::WaitMessage1, HandshakeAction::Receive);
                },
            };
            let mut ptk: [u8; 48] = [0; 48];
            derive_ptk(
                &parameters.pmk,
                parameters.bssid,
                parameters.own_address,
                &handshake.authenticator_nonce,
                &parameters.supplicant_nonce,
                &mut ptk,
            );
            let keys = PendingKeys { handshake, ptk };
            let (kck, _) = keys.confirmation_and_encryption_key();
            let transmission = send_message_2(
                buffer,
                rate,
                parameters.bssid,
                parameters.own_address,
                &kck,
                &parameters.supplicant_nonce,
                keys.handshake.replay_counter,
            );
            (HandshakeState::SendMessage2(keys), HandshakeAction::Transmit(transmission))
        },
        HandshakeState::WaitMessage3(keys) => {
            let mut keys = keys;
            let (kck, kek) = keys.confirmation_and_encryption_key();
            match process_message_3(
                &mut keys.handshake,
                frame,
                scratch,
                &kck,
                &kek,
                parameters.own_address,
                parameters.bssid,
            ) {
                Message3Step::Ignored => (
                    HandshakeState::WaitMessage3(keys),
                    HandshakeAction::Receive,
                ),
                Message3Step::ResendMessage2(counter) => {
                    let transmission = send_message_2(
                        buffer,
                        rate,
                        parameters.bssid,
                        parameters.own_address,
                        &kck,
                        &parameters.supplicant_nonce,
                        counter,
                    );
                    (HandshakeState::SendMessage2(keys), HandshakeAction::Transmit(transmission))
                },
                Message3Step::Accepted(gtk) => {
                    let transmission = send_message_4(
                        buffer,
                        rate,
                        parameters.bssid,
                        parameters.own_address,
                        &kck,
                        &parameters.supplicant_nonce,
                        keys.handshake.replay_counter,
                    );
                    (
                        HandshakeState::SendMessage4(keys, gtk),
                        HandshakeAction::Transmit(transmission),
                    )
                },
            }
        },
        other => (other, HandshakeAction::Receive),
    }
}

/// Whether `buffer` starts with the message 2 of an exchange.
pub open spec fn is_message_2(
    parameters: HandshakeParameters,
    keys: PendingKeys,
    buffer: Seq<u8>,
) -> bool {
    buffer.subrange(0, 153) == eapol_frame(
        parameters.bssid@,
        parameters.own_address@,
        message_2_fields(parameters.supplicant_nonce, keys.handshake.replay_counter),
        wpa2_personal(),
        keys.kck(),
    )
}

/// Whether `buffer` starts with the message 4 of an exchange.
pub open spec fn is_message_4(
    parameters: HandshakeParameters,
    keys: PendingKeys,
    buffer: Seq<u8>,
) -> bool {
    buffer.subrange(0, 131) == eapol_frame(
        parameters.bssid@,
        parameters.own_address@,
        message_4_fields(parameters.supplicant_nonce, keys.handshake.replay_counter),
        Seq::<u8>::empty(),
        keys.kck(),
    )
}

/// The group keys of a new connection: one.
fn only_group_key(gtk: GroupAssociation) -> (group_keys: [Option<GroupAssociation>; 4])
    requires
        gtk.key_id < 4,
    ensures
        forall|i: int|
            0 <= i < 4 ==> #[trigger] group_keys@[i] == if i == gtk.key_id {
                Some(gtk)
            } else {
                None
            },
{
    let id: usize = gtk.key_id as usize;
    let mut group_keys: [Option<GroupAssociation>; 4] = [None, None, None, None];
    group_keys[id] = Some(gtk);
    group_keys
}

/// What the completion of a frame that was sent during a four way handshake leads to.
///
/// After message 2, message 3 is awaited. After message 4 the keys are in use.
pub open spec fn handshake_continues(
    parameters: HandshakeParameters,
    state: HandshakeState,
    completion: Option<Result<u8, TxError>>,
    next: (HandshakeState, HandshakeAction),
) -> bool {
    match (eapol_sent(completion), state) {
        (Err(error), _) => {
            &&& next.0 is Finished
            &&& next.1 == HandshakeAction::Fail(error)
        },
        (Ok(()), HandshakeState::SendMessage2(keys)) => {
            &&& next.0 == HandshakeState::WaitMessage3(keys)
            &&& next.1 is Receive
        },
        (Ok(()), HandshakeState::SendMessage4(keys, gtk)) => {
            &&& next.0 is Finished
            &&& next.1 matches HandshakeAction::Complete(associations, replay)
            &&& associations.wf()
            &&& associations.keys_distinct()
            &&& associations.ptksa == (PairwiseAssociation {
                key: keys.ptk,
                key_id: 0,
                replay_counter: 0,
                packet_number: 1,
            })
            &&& associations.active_group_id == gtk.key_id
            &&& forall|i: int|
                0 <= i < 4 ==> #[trigger] associations.group_keys@[i] == if i == gtk.key_id {
                    Some(gtk)
                } else {
                    None
                }
            &&& associations.akm_suite == WPA2_PSK_AKM
            &&& associations.cipher_suite == CIPHER_CCMP_128
            &&& replay == (Message3Replay {
                authenticator_nonce: keys.handshake.authenticator_nonce,
                supplicant_nonce: parameters.supplicant_nonce,
                replay_counter: keys.handshake.replay_counter,
            })
        },
        _ => true,
    }
}

/// Take the completion of a frame that was sent during a four way handshake.
pub fn handshake_sent(
    parameters: &HandshakeParameters,
    state: HandshakeState,
    completion: Option<Result<u8, TxError>>,
) -> (next: (HandshakeState, HandshakeAction))
    requires
        state is SendMessage2 || state is SendMessage4,
        state matches HandshakeState::SendMessage4(_, gtk) ==> gtk.key_id < 4,
    ensures
        handshake_continues(*parameters, state, completion, next),
{
    match eapol_send_result(completion) {
        Err(error) => (HandshakeState::Finished, HandshakeAction::Fail(error)),
        Ok(()) => match state {
            HandshakeState::SendMessage2(keys) => (
                HandshakeState::WaitMessage3(keys),
                HandshakeAction::Receive,
            ),
            HandshakeState::SendMessage4(keys, gtk) => {
                let active_group_id: u8 = gtk.key_id;
                let associations = SecurityAssociations {
                    ptksa: TransientKeySecurityAssociation::new(keys.ptk, 0),
                    group_keys: only_group_key(gtk),
                    active_group_id,
                    akm_suite: WPA2_PSK_AKM,
                    cipher_suite: CIPHER_CCMP_128,
                };
                let replay = Message3Replay::new(
                    keys.handshake.authenticator_nonce,
                    parameters.supplicant_nonce,
                    keys.handshake.replay_counter,
                );
                (HandshakeState::Finished, HandshakeAction::Complete(associations, replay))
            },
            other => (other, HandshakeAction::Receive),
        },
    }
}

} // verus!

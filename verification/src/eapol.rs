//! EAPOL-Key frames of WPA2-PSK with CCMP, carried in data frames.
//!
//! The body of such a data frame is an LLC header followed by the EAPOL-Key envelope. Every
//! envelope starts with 99 bytes at fixed offsets, followed by the key data.
use core::marker::PhantomData;
use vstd::prelude::*;

use crate::bytes::{
    be_bytes, be_value, lemma_be_bytes_length, lemma_be_round_trip, lemma_be_value_pair, overwrite,
    pow256,
};
use crate::frame::{data_header_length, is_data_frame};
use crate::mac::MACAddress;
use ieee80211::common::{DataFrameSubtype, FCFFlags};
use ieee80211::crypto::eapol::{EapolKeyFrame, KeyInformation};
use ieee80211::crypto::{deserialize_eapol_data_frame, serialize_eapol_data_frame};
use ieee80211::data_frame::header::DataFrameHeader;
use ieee80211::data_frame::DataFrame;
use ieee80211::elements::rsn::{IEEE80211AkmType, RsnElement};
use ieee80211::elements::Element;
use ieee80211::scroll::Pwrite;
use llc_rs::{EtherType, SnapLlcFrame};

verus! {

/// The LLC header in front of an EAPOL envelope.
pub const EAPOL_LLC: [u8; 8] = [0xaa, 0xaa, 3, 0, 0, 0, 0x88, 0x8e];
/// Length of an envelope without key data.
pub const ENVELOPE_LENGTH: usize = 99;
/// How much longer key data gets by being wrapped.
pub const KEY_WRAP_OVERHEAD: usize = 8;
/// The key information bit that announces wrapped key data.
pub const KEY_INFO_ENCRYPTED: u16 = 0x1000;

/// Where the envelope starts in a data frame.
pub open spec fn envelope_offset(frame: Seq<u8>) -> int {
    data_header_length(frame) + 8
}

/// The EAPOL envelope in a data frame.
pub open spec fn envelope(frame: Seq<u8>) -> Seq<u8> {
    frame.subrange(envelope_offset(frame), frame.len() as int)
}

/// Key information field of an envelope.
pub open spec fn key_information(envelope: Seq<u8>) -> nat {
    be_value(envelope.subrange(5, 7))
}

/// Key length field of an envelope.
pub open spec fn key_length(envelope: Seq<u8>) -> nat {
    be_value(envelope.subrange(7, 9))
}

/// Replay counter field of an envelope.
pub open spec fn replay_counter(envelope: Seq<u8>) -> nat {
    be_value(envelope.subrange(9, 17))
}

/// Nonce field of an envelope.
pub open spec fn key_nonce(envelope: Seq<u8>) -> Seq<u8> {
    envelope.subrange(17, 49)
}

/// MIC field of an envelope.
pub open spec fn key_mic(envelope: Seq<u8>) -> Seq<u8> {
    envelope.subrange(81, 97)
}

/// Key data of an envelope.
pub open spec fn key_data(envelope: Seq<u8>) -> Seq<u8> {
    envelope.subrange(99, envelope.len() as int)
}

/// The envelope over which the MIC is computed: the MIC field is zero.
pub open spec fn without_mic(envelope: Seq<u8>) -> Seq<u8> {
    overwrite(envelope, 81, blank_mic())
}

/// The MIC that the key confirmation key `kck` gives the envelope `envelope`: the first sixteen
/// bytes of its HMAC-SHA1.
pub uninterp spec fn eapol_mic(kck: Seq<u8>, envelope: Seq<u8>) -> Seq<u8>;

/// What AES key unwrap with the key encryption key `kek` makes of `wrapped`; nothing if the
/// integrity check fails.
pub uninterp spec fn unwrapped_key_data(kek: Seq<u8>, wrapped: Seq<u8>) -> Option<Seq<u8>>;

/// Whether the fields of an envelope that hold fixed values or lengths are sound and the key
/// data, once unwrapped, fits into `scratch` bytes.
pub open spec fn wrapped_envelope(envelope: Seq<u8>, scratch: nat) -> bool {
    &&& envelope.len() >= ENVELOPE_LENGTH + 24
    &&& envelope[1] == 3
    &&& envelope[4] == 2
    &&& be_value(envelope.subrange(2, 4)) + 4 == envelope.len()
    &&& be_value(envelope.subrange(97, 99)) + ENVELOPE_LENGTH == envelope.len()
    &&& key_data(envelope).len() % 8 == 0
    &&& key_data(envelope).len() - KEY_WRAP_OVERHEAD <= scratch
    &&& envelope[5] & 0x01 != 0
    &&& envelope[5] & 0x10 != 0
}

/// Key information whose upper byte is 0x13 announces a MIC and encrypted key data.
pub proof fn lemma_mic_and_encryption_announced(envelope: Seq<u8>)
    requires
        envelope.len() >= ENVELOPE_LENGTH,
        key_information(envelope) / 256 == 0x13,
    ensures
        envelope[5] & 0x01 != 0,
        envelope[5] & 0x10 != 0,
{
    lemma_be_value_pair(envelope.subrange(5, 7));
    assert(0x13u8 & 0x01 != 0 && 0x13u8 & 0x10 != 0) by (bit_vector);
}

/// Whether the MIC of an envelope is the one that `kck` gives.
pub open spec fn mic_valid(kck: Seq<u8>, envelope: Seq<u8>) -> bool {
    key_mic(envelope) == eapol_mic(kck, without_mic(envelope))
}

/// The key data of an envelope, if the MIC is valid and the key data can be unwrapped.
pub open spec fn authentic_key_data(kck: Seq<u8>, kek: Seq<u8>, envelope: Seq<u8>) -> Option<
    Seq<u8>,
> {
    if mic_valid(kck, envelope) {
        unwrapped_key_data(kek, key_data(envelope))
    } else {
        None
    }
}

/// `frame` with the key data of its envelope replaced by `plain`, in place: the length fields
/// shrink by eight and the last eight bytes are left over.
pub open spec fn with_plain_key_data(frame: Seq<u8>, plain: Seq<u8>) -> Seq<u8> {
    let at = envelope_offset(frame);
    let size = frame.len() - at;
    overwrite(
        overwrite(
            overwrite(frame, at + 97, be_bytes((size - 107) as nat, 2)),
            at + ENVELOPE_LENGTH,
            plain,
        ),
        at + 2,
        be_bytes((size - 12) as nat, 2),
    )
}

/// The fields of a decoded EAPOL-Key envelope.
pub struct EapolKey {
    /// Replay counter.
    pub key_replay_counter: u64,
    /// Nonce of the transmitting party.
    pub key_nonce: [u8; 32],
    /// Key data, unwrapped.
    pub key_data: Vec<u8>,
}

/// Check the MIC of an EAPOL-Key frame with wrapped key data, and unwrap it.
///
/// Calls `ieee80211::crypto::deserialize_eapol_data_frame` for the PSK key management suite. It
/// compares the MIC with the HMAC-SHA1 of the envelope, runs AES key unwrap, writes the plain
/// key data and the shortened lengths into the buffer and reads the fields. Where the MIC or
/// the unwrapping fails, the buffer keeps its contents. What the scratch buffer holds then is
/// left open. The outside function panics on bodies and lengths that are cut short.
#[verifier::external_body]
pub(crate) fn decode_eapol_key(
    frame: &mut [u8],
    scratch: &mut [u8],
    kck: &[u8; 16],
    kek: &[u8; 16],
) -> (key: Option<EapolKey>)
    requires
        is_data_frame(old(frame)@),
        envelope_offset(old(frame)@) <= old(frame)@.len(),
        old(frame)@.subrange(data_header_length(old(frame)@), envelope_offset(old(frame)@))
            == EAPOL_LLC@,
        wrapped_envelope(envelope(old(frame)@), old(scratch)@.len()),
    ensures
        final(scratch)@.len() == old(scratch)@.len(),
        key is Some == (key_mic(envelope(old(frame)@)) == eapol_mic(
            kck@,
            without_mic(envelope(old(frame)@)),
        ) && unwrapped_key_data(kek@, key_data(envelope(old(frame)@))) is Some),
        key matches Some(key) ==> {
            let plain = unwrapped_key_data(kek@, key_data(envelope(old(frame)@)))->Some_0;
            &&& key.key_data@ == plain
            &&& plain.len() + KEY_WRAP_OVERHEAD == key_data(envelope(old(frame)@)).len()
            &&& key.key_replay_counter as nat == replay_counter(envelope(old(frame)@))
            &&& key.key_nonce@ == key_nonce(envelope(old(frame)@))
            &&& final(frame)@ == with_plain_key_data(old(frame)@, plain)
        },
        key is None ==> final(frame)@ == old(frame)@,
{
    deserialize_eapol_data_frame(
        Some(kck),
        Some(kek),
        frame,
        scratch,
        IEEE80211AkmType::Psk,
        false,
    ).ok().map(
        |key|
            EapolKey {
                key_replay_counter: key.key_replay_counter,
                key_nonce: key.key_nonce,
                key_data: key.key_data.bytes.to_vec(),
            },
    )
}

/// The element by which a station asks for WPA2-PSK with CCMP for pairwise and group traffic.
pub open spec fn wpa2_personal() -> Seq<u8> {
    seq![
        0x30u8, 20,
        1, 0,
        0x00, 0x0f, 0xac, 4,
        1, 0, 0x00, 0x0f, 0xac, 4,
        1, 0, 0x00, 0x0f, 0xac, 2,
        0, 0,
    ]
}

/// Serialize the RSN element for WPA2-PSK with CCMP.
///
/// Writes the constant `ieee80211::elements::rsn::RsnElement::WPA2_PERSONAL` with its element
/// header: version, group cipher, pairwise ciphers, key management suites and capabilities.
#[verifier::external_body]
pub(crate) fn wpa2_personal_element() -> (element: Vec<u8>)
    ensures
        element@ == wpa2_personal(),
{
    let mut element = vec![0; 64];
    let written = element.as_mut_slice().pwrite(RsnElement::WPA2_PERSONAL.wrap(), 0).unwrap();
    element.truncate(written);
    element
}

/// The fields of an EAPOL-Key envelope that is to be sent.
#[derive(Clone, Copy, Debug)]
pub struct EapolKeyFields {
    /// Key information.
    pub key_information: u16,
    /// Key length.
    pub key_length: u16,
    /// Replay counter.
    pub key_replay_counter: u64,
    /// Nonce.
    pub key_nonce: [u8; 32],
}

/// The MAC header of a data frame from `own` to the access point `bssid`.
pub open spec fn uplink_header(bssid: Seq<u8>, own: Seq<u8>, destination: Seq<u8>) -> Seq<u8> {
    seq![0x08u8, 0x01, 0, 0] + bssid + own + destination + seq![0u8, 0]
}

/// An envelope with the given fields and `mic`.
pub open spec fn envelope_of(fields: EapolKeyFields, data: Seq<u8>, mic: Seq<u8>) -> Seq<u8> {
    seq![2u8, 3] + be_bytes((95 + data.len()) as nat, 2) + seq![2u8] + be_bytes(
        fields.key_information as nat,
        2,
    ) + be_bytes(fields.key_length as nat, 2) + be_bytes(fields.key_replay_counter as nat, 8)
        + fields.key_nonce@ + Seq::new(32, |i: int| 0u8) + mic + be_bytes(data.len(), 2) + data
}

/// A MIC field that is yet to be filled in.
pub open spec fn blank_mic() -> Seq<u8> {
    Seq::new(16, |i: int| 0u8)
}

/// The frame in which `own` sends `envelope` to the access point `bssid`.
pub open spec fn eapol_uplink(bssid: Seq<u8>, own: Seq<u8>, envelope: Seq<u8>) -> Seq<u8> {
    uplink_header(bssid, own, bssid) + EAPOL_LLC@ + envelope
}

/// The EAPOL-Key frame that `own` sends to the access point `bssid`, with the MIC of `kck`.
pub open spec fn eapol_frame(
    bssid: Seq<u8>,
    own: Seq<u8>,
    fields: EapolKeyFields,
    data: Seq<u8>,
    kck: Seq<u8>,
) -> Seq<u8> {
    eapol_uplink(
        bssid,
        own,
        envelope_of(fields, data, eapol_mic(kck, envelope_of(fields, data, blank_mic()))),
    )
}

/// The length of an EAPOL-Key frame.
pub proof fn lemma_eapol_frame_length(
    bssid: Seq<u8>,
    own: Seq<u8>,
    fields: EapolKeyFields,
    data: Seq<u8>,
    kck: Seq<u8>,
)
    requires
        bssid.len() == 6,
        own.len() == 6,
        eapol_mic(kck, envelope_of(fields, data, blank_mic())).len() == 16,
    ensures
        eapol_frame(bssid, own, fields, data, kck).len() == 131 + data.len(),
{
    lemma_be_bytes_length((95 + data.len()) as nat, 2);
    lemma_be_bytes_length(fields.key_information as nat, 2);
    lemma_be_bytes_length(fields.key_length as nat, 2);
    lemma_be_bytes_length(fields.key_replay_counter as nat, 8);
    lemma_be_bytes_length(data.len(), 2);
}

/// Where everything stands in a key frame to the access point: the addresses, the LLC header, the
/// fields of the envelope at their fixed offsets, and the MIC over an envelope in which the MIC is
/// zero.
pub proof fn key_frame_layout(
    bssid: Seq<u8>,
    own: Seq<u8>,
    fields: EapolKeyFields,
    data: Seq<u8>,
    kck: Seq<u8>,
)
    requires
        bssid.len() == 6,
        own.len() == 6,
        data.len() <= 65440,
        eapol_frame(bssid, own, fields, data, kck).len() == 131 + data.len(),
    ensures
        ({
            let frame = eapol_frame(bssid, own, fields, data, kck);
            let end = frame.len() as int;
            &&& frame[0] == 0x08
            &&& frame[1] == 0x01
            &&& frame.subrange(4, 10) == bssid
            &&& frame.subrange(10, 16) == own
            &&& frame.subrange(16, 22) == bssid
            &&& frame.subrange(24, 32) == seq![0xaau8, 0xaa, 3, 0, 0, 0, 0x88, 0x8e]
            &&& frame[33] == 3
            &&& be_value(frame.subrange(34, 36)) == 95 + data.len()
            &&& frame[36] == 2
            &&& be_value(frame.subrange(37, 39)) == fields.key_information
            &&& be_value(frame.subrange(39, 41)) == fields.key_length
            &&& be_value(frame.subrange(41, 49)) == fields.key_replay_counter
            &&& frame.subrange(49, 81) == fields.key_nonce@
            &&& frame.subrange(113, 129) == eapol_mic(
                kck,
                overwrite(frame.subrange(32, end), 81, Seq::new(16, |i: int| 0u8)),
            )
            &&& be_value(frame.subrange(129, 131)) == data.len()
            &&& frame.subrange(131, end) == data
        }),
{
    reveal_with_fuel(pow256, 9);
    lemma_be_round_trip((95 + data.len()) as nat, 2);
    lemma_be_round_trip(fields.key_information as nat, 2);
    lemma_be_round_trip(fields.key_length as nat, 2);
    lemma_be_round_trip(fields.key_replay_counter as nat, 8);
    lemma_be_round_trip(data.len(), 2);
    let frame = eapol_frame(bssid, own, fields, data, kck);
    let end = frame.len() as int;
    let blank = envelope_of(fields, data, blank_mic());
    let mic = eapol_mic(kck, blank);
    assert(mic.len() == 16);
    assert(frame.subrange(4, 10) =~= bssid);
    assert(frame.subrange(10, 16) =~= own);
    assert(frame.subrange(16, 22) =~= bssid);
    assert(frame.subrange(24, 32) =~= seq![0xaau8, 0xaa, 3, 0, 0, 0, 0x88, 0x8e]);
    assert(frame.subrange(34, 36) =~= be_bytes((95 + data.len()) as nat, 2));
    assert(frame.subrange(37, 39) =~= be_bytes(fields.key_information as nat, 2));
    assert(frame.subrange(39, 41) =~= be_bytes(fields.key_length as nat, 2));
    assert(frame.subrange(41, 49) =~= be_bytes(fields.key_replay_counter as nat, 8));
    assert(frame.subrange(49, 81) =~= fields.key_nonce@);
    assert(frame.subrange(113, 129) =~= mic);
    assert(frame.subrange(129, 131) =~= be_bytes(data.len(), 2));
    assert(frame.subrange(131, end) =~= data);
    assert(overwrite(frame.subrange(32, end), 81, Seq::new(16, |i: int| 0u8)) =~= blank);
}

/// Serialize an EAPOL-Key frame with plain key data and its MIC.
///
/// Calls `ieee80211::crypto::serialize_eapol_data_frame`, which writes the MAC header, the LLC
/// header and the envelope, and fills in the HMAC-SHA1 of the envelope with an empty MIC field.
/// Key information asks for a MIC and for no encryption of the key data. What the scratch
/// buffer holds afterwards is left open.
#[verifier::external_body]
pub(crate) fn encode_eapol_key(
    bssid: MACAddress,
    own: MACAddress,
    fields: &EapolKeyFields,
    data: &[u8],
    kck: &[u8; 16],
    buffer: &mut [u8],
    scratch: &mut [u8],
) -> (written: usize)
    requires
        fields.key_information & 0x0100 != 0,
        fields.key_information & KEY_INFO_ENCRYPTED == 0,
        data@.len() <= 65440,
        old(buffer)@.len() >= 131 + data@.len(),
        old(scratch)@.len() >= 24,
    ensures
        written == 131 + data@.len(),
        eapol_mic(kck@, envelope_of(*fields, data@, blank_mic())).len() + 115 + data@.len()
            == written,
        final(buffer)@ == overwrite(
            old(buffer)@,
            0,
            eapol_uplink(
                bssid@,
                own@,
                envelope_of(
                    *fields,
                    data@,
                    eapol_mic(kck@, envelope_of(*fields, data@, blank_mic())),
                ),
            ),
        ),
        final(scratch)@.len() == old(scratch)@.len(),
{
    let (bssid, own) = (bssid.0.into(), own.0.into());
    let header = DataFrameHeader { subtype: DataFrameSubtype::Data,
        fcf_flags: FCFFlags::new().with_to_ds(true), address_1: bssid, address_2: own,
        address_3: bssid, ..Default::default() };
    let key = EapolKeyFrame { key_information: KeyInformation::from_bits(fields.key_information),
        key_length: fields.key_length, key_replay_counter: fields.key_replay_counter,
        key_nonce: fields.key_nonce, key_mic: [0u8; 16], key_data: data, key_iv: 0, key_rsc: 0,
        _phantom: PhantomData };
    let llc = SnapLlcFrame { oui: [0; 3], ether_type: EtherType::Eapol, payload: key,
        _phantom: PhantomData };
    let frame = DataFrame { header, payload: Some(llc), _phantom: PhantomData };
    serialize_eapol_data_frame(Some(kck), None, frame, buffer, scratch).unwrap()
}

} // verus!

//! Ethernet frames, and MSDUs in data frames.
use core::marker::PhantomData;
use vstd::prelude::*;

use crate::bytes::{be_bytes, be_value, overwrite};
use crate::eapol::uplink_header;
use crate::frame::{crypto_header, MAX_PN};
use crate::mac::MACAddress;
use ethernet::{Ethernet2Frame, Ethernet2Header};
use ieee80211::common::{DataFrameSubtype, FCFFlags};
use ieee80211::crypto::{CryptoHeader, MicState};
use ieee80211::data_frame::header::DataFrameHeader;
use ieee80211::data_frame::DataFrame;
use ieee80211::scroll::{Pread, Pwrite};
use llc_rs::{EtherType, SnapLlcFrame};

verus! {

/// An Ethernet frame.
pub struct EthernetFrame {
    /// Destination.
    pub dst: MACAddress,
    /// Source.
    pub src: MACAddress,
    /// Protocol of the payload.
    pub ether_type: u16,
    /// The payload.
    pub payload: Vec<u8>,
}

/// Parse an Ethernet frame.
///
/// Calls `pread::<ethernet::Ethernet2Frame>`: two addresses, the protocol, and a payload that must
/// not be empty.
#[verifier::external_body]
pub(crate) fn parse_ethernet(bytes: &[u8]) -> (frame: Option<EthernetFrame>)
    ensures
        frame is Some == (bytes@.len() > 14),
        frame matches Some(frame) ==> {
            &&& frame.dst@ == bytes@.subrange(0, 6)
            &&& frame.src@ == bytes@.subrange(6, 12)
            &&& frame.ether_type as nat == be_value(bytes@.subrange(12, 14))
            &&& frame.payload@ == bytes@.subrange(14, bytes@.len() as int)
        },
{
    let frame = bytes.pread::<Ethernet2Frame>(0).ok()?;
    Some(EthernetFrame {
        dst: MACAddress(frame.header.dst.0),
        src: MACAddress(frame.header.src.0),
        ether_type: frame.header.ether_type.into_bits(),
        payload: frame.payload.to_vec(),
    })
}

/// The bytes of an Ethernet frame.
pub open spec fn ethernet_frame(
    dst: Seq<u8>,
    src: Seq<u8>,
    ether_type: nat,
    payload: Seq<u8>,
) -> Seq<u8> {
    dst + src + be_bytes(ether_type, 2) + payload
}

/// Serialize an Ethernet frame.
///
/// Writes an `ethernet::Ethernet2Frame`.
#[verifier::external_body]
pub(crate) fn serialize_ethernet(
    dst: MACAddress,
    src: MACAddress,
    ether_type: u16,
    payload: &[u8],
    buffer: &mut [u8],
) -> (written: usize)
    requires
        old(buffer)@.len() >= 14 + payload@.len(),
    ensures
        written == 14 + payload@.len(),
        final(buffer)@ == overwrite(
            old(buffer)@,
            0,
            ethernet_frame(dst@, src@, ether_type as nat, payload@),
        ),
{
    let ether_type = EtherType::from_bits(ether_type);
    let header = Ethernet2Header { dst: dst.0.into(), src: src.0.into(), ether_type };
    buffer.pwrite(Ethernet2Frame { header, payload }, 0).unwrap()
}

/// An MSDU with a SNAP header.
pub struct LlcFrame {
    /// Organization that the protocol belongs to.
    pub oui: [u8; 3],
    /// Protocol of the payload.
    pub ether_type: u16,
    /// The payload.
    pub payload: Vec<u8>,
}

/// Whether bytes start with a SNAP header: both service access points say so, and one of the two
/// lowest control bits is set.
pub open spec fn is_snap(bytes: Seq<u8>) -> bool {
    bytes.len() >= 8 && bytes[0] == 0xaa && bytes[1] == 0xaa && bytes[2] & 3 != 0
}

/// Parse an MSDU.
///
/// Calls `pread::<llc_rs::SnapLlcFrame>`: the protocol stands behind three bytes of organization.
#[verifier::external_body]
pub(crate) fn parse_llc(bytes: &[u8]) -> (frame: Option<LlcFrame>)
    ensures
        frame is Some == is_snap(bytes@),
        frame matches Some(frame) ==> {
            &&& frame.oui@ == bytes@.subrange(3, 6)
            &&& frame.ether_type as nat == be_value(bytes@.subrange(6, 8))
            &&& frame.payload@ == bytes@.subrange(8, bytes@.len() as int)
        },
{
    let frame = bytes.pread::<SnapLlcFrame>(0).ok()?;
    Some(LlcFrame {
        oui: frame.oui,
        ether_type: frame.ether_type.into_bits(),
        payload: frame.payload.to_vec(),
    })
}

/// An MSDU with a SNAP header, as bytes.
pub open spec fn snap_frame(ether_type: nat, payload: Seq<u8>) -> Seq<u8> {
    seq![0xaau8, 0xaa, 3, 0, 0, 0] + be_bytes(ether_type, 2) + payload
}

/// The data frame in which `own` sends an MSDU for `destination` to the access point `bssid`.
pub open spec fn plain_msdu_frame(
    bssid: Seq<u8>,
    own: Seq<u8>,
    destination: Seq<u8>,
    ether_type: nat,
    payload: Seq<u8>,
) -> Seq<u8> {
    uplink_header(bssid, own, destination) + snap_frame(ether_type, payload)
}

/// Serialize a data frame with an MSDU.
///
/// Writes an `ieee80211::data_frame::DataFrame` with an `llc_rs::SnapLlcFrame` as payload.
#[verifier::external_body]
pub(crate) fn serialize_plain_msdu(
    bssid: MACAddress,
    own: MACAddress,
    destination: MACAddress,
    ether_type: u16,
    payload: &[u8],
    buffer: &mut [u8],
) -> (written: usize)
    requires
        old(buffer)@.len() >= 32 + payload@.len(),
    ensures
        written == 32 + payload@.len(),
        final(buffer)@ == overwrite(
            old(buffer)@,
            0,
            plain_msdu_frame(bssid@, own@, destination@, ether_type as nat, payload@),
        ),
{
    let header = DataFrameHeader { subtype: DataFrameSubtype::Data,
        fcf_flags: FCFFlags::new().with_to_ds(true), address_1: bssid.0.into(),
        address_2: own.0.into(), address_3: destination.0.into(), ..Default::default() };
    let ether_type = EtherType::from_bits(ether_type);
    let llc = SnapLlcFrame { oui: [0; 3], ether_type, payload, _phantom: PhantomData };
    let frame = DataFrame { header, payload: Some(llc), _phantom: PhantomData };
    buffer.pwrite(frame, 0).unwrap()
}

/// The frame of [plain_msdu_frame] prepared for encryption: marked as protected, with a CCMP header
/// in front of the body and room for the MIC behind it.
pub open spec fn protected_msdu_frame(
    bssid: Seq<u8>,
    own: Seq<u8>,
    destination: Seq<u8>,
    ether_type: nat,
    payload: Seq<u8>,
    packet_number: u64,
    key_id: u8,
) -> Seq<u8> {
    uplink_header(bssid, own, destination).update(1, 0x41) + crypto_header(packet_number, key_id)
        + snap_frame(ether_type, payload) + Seq::new(8, |i: int| 0u8)
}

/// Serialize a data frame with an MSDU that is to be encrypted.
///
/// Writes an `ieee80211::data_frame::DataFrame` with an `llc_rs::SnapLlcFrame` as payload, after
/// `DataFrame::crypto_wrap` with a `CryptoHeader` and an eight byte MIC. The outside header exists
/// unless both the packet number and the key identifier are out of range.
#[verifier::external_body]
pub(crate) fn serialize_protected_msdu(
    bssid: MACAddress,
    own: MACAddress,
    destination: MACAddress,
    ether_type: u16,
    payload: &[u8],
    packet_number: u64,
    key_id: u8,
    buffer: &mut [u8],
) -> (written: usize)
    requires
        packet_number <= MAX_PN || key_id <= 3,
        old(buffer)@.len() >= 48 + payload@.len(),
    ensures
        written == 48 + payload@.len(),
        final(buffer)@ == overwrite(
            old(buffer)@,
            0,
            protected_msdu_frame(
                bssid@,
                own@,
                destination@,
                ether_type as nat,
                payload@,
                packet_number,
                key_id,
            ),
        ),
{
    let header = DataFrameHeader { subtype: DataFrameSubtype::Data,
        fcf_flags: FCFFlags::new().with_to_ds(true), address_1: bssid.0.into(),
        address_2: own.0.into(), address_3: destination.0.into(), ..Default::default() };
    let ether_type = EtherType::from_bits(ether_type);
    let llc = SnapLlcFrame { oui: [0; 3], ether_type, payload, _phantom: PhantomData };
    let frame = DataFrame { header, payload: Some(llc), _phantom: PhantomData };
    let crypto_header = CryptoHeader::new(packet_number, key_id).unwrap();
    buffer.pwrite(frame.crypto_wrap(crypto_header, MicState::Short), 0).unwrap()
}

} // verus!

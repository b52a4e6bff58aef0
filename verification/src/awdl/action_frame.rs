//! Action frames, by which peers announce themselves.
use vstd::prelude::*;

use crate::awdl::tlv::{
    are_in_range, check_tlvs, find_channel_sequence, find_window_position, first_tlv,
    TLV_CHANNEL_SEQUENCE, TLV_ELECTION, TLV_ELECTION_V2, TLV_SERVICE_RESPONSE, TLV_SYNCHRONIZATION,
};
use crate::bytes::{le_bytes, le_value, overwrite};
use crate::frame::is_management;
use crate::mac::MACAddress;
use crate::mgmt::{has_mgmt_body, mgmt_header, mgmt_header_length};
use awdl_frame_parser::action_frame::{
    AWDLActionFrame, AWDLActionFrameSubType, DefaultAWDLActionFrame,
};
use core::marker::PhantomData;
use core::time::Duration;
use ieee80211::mgmt_frame::body::action::{
    RawVendorSpecificActionBody, RawVendorSpecificActionFrame,
};
use ieee80211::mgmt_frame::ManagementFrameHeader;
use ieee80211::scroll::ctx::MeasureWith;
use ieee80211::scroll::{Pread, Pwrite};
use ieee80211::GenericFrame;

verus! {

/// Subtype of action frames.
pub const SUBTYPE_ACTION: u8 = 13;

/// Category of vendor specific action frames.
pub const CATEGORY_VENDOR: u8 = 127;

/// Subtype of periodic synchronization frames.
pub const SUBTYPE_PSF: u8 = 0;

/// Subtype of master indication frames.
pub const SUBTYPE_MIF: u8 = 3;

/// Whether `frame` is a vendor specific action frame.
pub open spec fn is_vendor_action(frame: Seq<u8>) -> bool {
    &&& has_mgmt_body(frame, 4)
    &&& is_management(frame, SUBTYPE_ACTION)
    &&& frame[mgmt_header_length(frame)] == CATEGORY_VENDOR
}

/// A vendor specific action frame.
pub struct VendorAction {
    /// Who sent the frame.
    pub transmitter: MACAddress,
    /// Identifier of the vendor.
    pub oui: [u8; 3],
    /// What the vendor made of it.
    pub payload: Vec<u8>,
}

/// The payload of a vendor specific action frame.
pub open spec fn vendor_payload(frame: Seq<u8>) -> Seq<u8> {
    frame.subrange(mgmt_header_length(frame) + 4, frame.len() as int)
}

/// The vendor of a vendor specific action frame.
pub open spec fn vendor_oui(frame: Seq<u8>) -> Seq<u8> {
    frame.subrange(mgmt_header_length(frame) + 1, mgmt_header_length(frame) + 4)
}

/// Parse a vendor specific action frame.
///
/// Calls `ieee80211::GenericFrame::parse_to_typed::<RawVendorSpecificActionFrame>`: the vendor
/// stands behind the category, and all else is the payload.
#[verifier::external_body]
pub(crate) fn parse_vendor_action(frame: &[u8]) -> (action: Option<VendorAction>)
    ensures
        action is Some == is_vendor_action(frame@),
        action matches Some(action) ==> {
            &&& action.transmitter@ == frame@.subrange(10, 16)
            &&& action.oui@ == vendor_oui(frame@)
            &&& action.payload@ == vendor_payload(frame@)
        },
{
    let action = GenericFrame::new(frame, false).ok()?
        .parse_to_typed::<RawVendorSpecificActionFrame>()?.ok()?;
    Some(VendorAction {
        transmitter: MACAddress(action.header.transmitter_address.0),
        oui: action.body.oui,
        payload: action.body.payload.to_vec(),
    })
}

/// An AWDL action frame.
pub struct ActionFrame {
    /// Whether it is a PSF or a MIF.
    pub subtype: u8,
    /// When it was handed to the PHY, in microseconds on the clock of the peer.
    pub phy_tx_time: u32,
    /// When it was meant to be sent, in microseconds on the clock of the peer.
    pub target_tx_time: u32,
    /// The fields.
    pub tlvs: Vec<u8>,
}

/// Whether the bytes are an AWDL action frame, of version 1.0.
pub open spec fn is_awdl_action(payload: Seq<u8>) -> bool {
    payload.len() >= 12 && payload[0] == 8 && payload[1] == 0x10
}

impl ActionFrame {
    /// Whether the payload of a vendor specific action frame is this action frame.
    pub open spec fn stands_in(&self, payload: Seq<u8>) -> bool {
        &&& self.subtype == payload[2]
        &&& self.phy_tx_time == le_value(payload.subrange(4, 8))
        &&& self.target_tx_time == le_value(payload.subrange(8, 12))
        &&& self.tlvs@ == payload.subrange(12, payload.len() as int)
    }

    /// Whether the frame tells how the peer is synchronized.
    pub open spec fn tells_synchronization(&self) -> bool {
        &&& first_tlv(self.tlvs@, TLV_CHANNEL_SEQUENCE) is Some
        &&& first_tlv(self.tlvs@, TLV_SYNCHRONIZATION) is Some
    }

    /// Whether the frame tells whom the peer follows.
    pub open spec fn tells_election(&self) -> bool {
        first_tlv(self.tlvs@, TLV_ELECTION_V2) is Some || first_tlv(self.tlvs@, TLV_ELECTION) is Some
    }

    /// Whether lengths, counts and times are in the range that they are calculated with: the frame
    /// was not sent before it was meant to be.
    pub open spec fn is_readable(&self) -> bool {
        &&& are_in_range(self.tlvs@, TLV_CHANNEL_SEQUENCE, false)
        &&& first_tlv(self.tlvs@, TLV_CHANNEL_SEQUENCE) is Some ==> are_in_range(
            self.tlvs@,
            TLV_SYNCHRONIZATION,
            false,
        )
        &&& self.tells_synchronization() ==> self.target_tx_time <= self.phy_tx_time
    }

    /// Whether that is so of the service responses as well.
    pub open spec fn has_readable_services(&self) -> bool {
        are_in_range(self.tlvs@, TLV_SERVICE_RESPONSE, true)
    }
}

/// Parse the payload of a vendor specific action frame.
///
/// Calls `pread::<awdl_frame_parser::action_frame::DefaultAWDLActionFrame>`, which does not look
/// at the fields.
#[verifier::external_body]
pub(crate) fn parse_awdl_action(payload: &[u8]) -> (frame: Option<ActionFrame>)
    ensures
        frame is Some == is_awdl_action(payload@),
        frame matches Some(frame) ==> frame.stands_in(payload@),
{
    let frame = payload.pread::<DefaultAWDLActionFrame>(0).ok()?;
    let mut tlvs = vec![0; frame.tagged_data.measure_with(&())];
    tlvs.pwrite(frame.tagged_data, 0).unwrap();
    Some(ActionFrame {
        subtype: frame.subtype.into_bits(),
        phy_tx_time: frame.phy_tx_time.as_micros() as u32,
        target_tx_time: frame.target_tx_time.as_micros() as u32,
        tlvs,
    })
}

/// An action frame up to its fields, where `was` stood before. A reserved byte is left as it was.
pub open spec fn action_header(
    receiver: Seq<u8>,
    transmitter: Seq<u8>,
    bssid: Seq<u8>,
    oui: Seq<u8>,
    subtype: u8,
    target_tx_time: u64,
    was: Seq<u8>,
) -> Seq<u8> {
    mgmt_header(SUBTYPE_ACTION, 0, receiver, transmitter, bssid) + seq![CATEGORY_VENDOR] + oui
        + seq![8u8, 0x10, subtype, was[31], 0, 0, 0, 0] + le_bytes(
        target_tx_time as nat % 0x1_0000_0000,
        4,
    )
}

/// Write an action frame up to its fields.
///
/// Writes an `ieee80211` vendor specific action frame around an
/// `awdl_frame_parser::action_frame::AWDLActionFrame` without fields, to be handed to the PHY at
/// time zero. Of the other time, the lower 32 bits are written.
#[verifier::external_body]
pub(crate) fn write_action_header(
    buffer: &mut [u8],
    receiver: [u8; 6],
    transmitter: [u8; 6],
    bssid: [u8; 6],
    oui: [u8; 3],
    subtype: u8,
    target_tx_time: u64,
) -> (written: usize)
    requires
        old(buffer)@.len() >= 40,
    ensures
        written == 40,
        final(buffer)@ == overwrite(
            old(buffer)@,
            0,
            action_header(
                receiver@,
                transmitter@,
                bssid@,
                oui@,
                subtype,
                target_tx_time,
                old(buffer)@,
            ),
        ),
{
    let header = ManagementFrameHeader { receiver_address: receiver.into(),
        transmitter_address: transmitter.into(), bssid: bssid.into(), ..Default::default() };
    let tagged_data: &[u8] = &[];
    let payload = AWDLActionFrame { subtype: AWDLActionFrameSubType::from_bits(subtype), tagged_data,
        target_tx_time: Duration::from_micros(target_tx_time), phy_tx_time: Duration::ZERO };
    let body = RawVendorSpecificActionBody { oui, payload, _phantom: PhantomData };
    buffer.pwrite(RawVendorSpecificActionFrame { header, body }, 0).unwrap()
}

/// Check whether lengths, counts and times are in the range that they are calculated with.
pub fn check_action_frame(frame: &ActionFrame) -> (readable: bool)
    ensures
        readable == frame.is_readable(),
{
    if !check_tlvs(&frame.tlvs, TLV_CHANNEL_SEQUENCE, false) {
        return false;
    }
    if find_channel_sequence(&frame.tlvs).is_some() {
        if !check_tlvs(&frame.tlvs, TLV_SYNCHRONIZATION, false) {
            return false;
        }
        if find_window_position(&frame.tlvs).is_some() && frame.target_tx_time > frame.phy_tx_time {
            return false;
        }
    }
    true
}

/// Check whether that is so of the service responses as well.
pub fn check_services(frame: &ActionFrame) -> (readable: bool)
    ensures
        readable == frame.has_readable_services(),
{
    check_tlvs(&frame.tlvs, TLV_SERVICE_RESPONSE, true)
}

} // verus!

//! IEEE 802.11 data frames.
//!
//! Frames are plain byte strings. The layout of the MAC header is stated once, over sequences of
//! bytes; the parsing itself is done by the `ieee80211` crate.
use vstd::prelude::*;

use crate::bytes::{le_bytes, le_value};
use crate::mac::MACAddress;
use ieee80211::crypto::{CryptoHeader, MicState};
use ieee80211::data_frame::amsdu::AMSDUSubframeIterator;
use ieee80211::data_frame::{DataFrame, DataFrameReadPayload, PotentiallyWrappedPayload};
use ieee80211::scroll::Pwrite;
use ieee80211::GenericFrame;

verus! {

/// The "to distribution system" flag.
pub const FLAG_TO_DS: u8 = 0x01;
/// The "from distribution system" flag.
pub const FLAG_FROM_DS: u8 = 0x02;
/// The flag of a frame with encrypted contents.
pub const FLAG_PROTECTED: u8 = 0x40;
/// The flag of a frame with an HT control field.
pub const FLAG_ORDER: u8 = 0x80;
/// Length of a CCMP header.
pub const CCMP_HEADER_LENGTH: usize = 8;
/// Length of a CCMP MIC.
pub const CCMP_MIC_LENGTH: usize = 8;
/// The largest packet number a CCMP header can hold.
pub const MAX_PN: u64 = 0xffff_ffff_ffff;

/// The two type bits of the frame control field: 0 management, 1 control, 2 data.
pub open spec fn frame_type(frame: Seq<u8>) -> u8 {
    (frame[0] >> 2) & 3
}

/// The four subtype bits of the frame control field.
pub open spec fn frame_subtype(frame: Seq<u8>) -> u8 {
    frame[0] >> 4
}

/// Whether `flag` is set in the flags of the frame control field.
pub open spec fn has_flag(frame: Seq<u8>, flag: u8) -> bool {
    frame[1] & flag != 0
}

/// Whether data frames of this subtype have a QoS control field.
pub open spec fn subtype_is_qos(subtype: u8) -> bool {
    subtype >= 8 && subtype != 13
}

/// Whether data frames of this subtype have a body.
pub open spec fn subtype_has_payload(subtype: u8) -> bool {
    subtype < 4 || 8 <= subtype < 12
}

/// Whether a data frame has a fourth address.
pub open spec fn has_address_4(frame: Seq<u8>) -> bool {
    has_flag(frame, FLAG_TO_DS) && has_flag(frame, FLAG_FROM_DS)
}

/// Where the QoS control field of a data frame would start.
pub open spec fn qos_offset(frame: Seq<u8>) -> int {
    24 + if has_address_4(frame) { 6int } else { 0 }
}

/// The length of the MAC header of a data frame.
pub open spec fn data_header_length(frame: Seq<u8>) -> int {
    qos_offset(frame) + (if subtype_is_qos(frame_subtype(frame)) { 2int } else { 0 }) + (
    if has_flag(frame, FLAG_ORDER) { 4int } else { 0 })
}

/// Whether `frame` is a data frame with a complete MAC header.
pub open spec fn is_data_frame(frame: Seq<u8>) -> bool {
    &&& frame.len() >= 10
    &&& frame_type(frame) == 2
    &&& data_header_length(frame) <= frame.len()
}

/// The MAC header of a data frame.
#[derive(Clone, Copy, Debug)]
pub struct DataHeader {
    /// Subtype from the frame control field.
    pub subtype: u8,
    /// Flags from the frame control field.
    pub flags: u8,
    /// First address.
    pub address_1: MACAddress,
    /// Second address.
    pub address_2: MACAddress,
    /// Third address.
    pub address_3: MACAddress,
    /// Fourth address.
    pub address_4: Option<MACAddress>,
    /// QoS control field.
    pub qos: Option<[u8; 2]>,
    /// Length of the header in bytes.
    pub length: usize,
    /// Whether the frame has a body.
    pub has_payload: bool,
}

impl DataHeader {
    /// Whether this is the MAC header at the front of `frame`.
    pub open spec fn heads(&self, frame: Seq<u8>) -> bool {
        &&& self.subtype == frame_subtype(frame)
        &&& self.flags == frame[1]
        &&& self.address_1@ == frame.subrange(4, 10)
        &&& self.address_2@ == frame.subrange(10, 16)
        &&& self.address_3@ == frame.subrange(16, 22)
        &&& self.address_4 is Some == has_address_4(frame)
        &&& self.address_4 matches Some(address) ==> address@ == frame.subrange(24, 30)
        &&& self.qos is Some == subtype_is_qos(frame_subtype(frame))
        &&& self.qos matches Some(qos) ==> qos@ == frame.subrange(
            qos_offset(frame),
            qos_offset(frame) + 2,
        )
        &&& self.length == data_header_length(frame)
        &&& self.has_payload == subtype_has_payload(frame_subtype(frame))
    }

    /// Whether the body is an aggregate of MSDUs.
    pub open spec fn spec_is_amsdu(&self) -> bool {
        &&& self.has_payload
        &&& self.qos matches Some(qos) && qos@[0] & 0x80 != 0
    }

    /// Where the frame is to be delivered.
    pub open spec fn spec_destination_address(&self) -> Option<MACAddress> {
        if self.flags & FLAG_TO_DS == 0 {
            Some(self.address_1)
        } else if !self.spec_is_amsdu() {
            Some(self.address_3)
        } else {
            None
        }
    }

    /// Where the frame originates.
    pub open spec fn spec_source_address(&self) -> Option<MACAddress> {
        if self.flags & FLAG_FROM_DS == 0 {
            Some(self.address_2)
        } else if self.spec_is_amsdu() {
            None
        } else if self.flags & FLAG_TO_DS == 0 {
            Some(self.address_3)
        } else {
            self.address_4
        }
    }
}

/// Parse the MAC header of a data frame.
///
/// Calls `ieee80211::GenericFrame::new` and `GenericFrame::parse_to_typed::<DataFrame>`: a byte
/// string is a data frame if it has ten bytes, its type bits say so and the whole header is
/// there; the fields are read from the fixed offsets given by [DataHeader::heads].
#[verifier::external_body]
pub(crate) fn parse_data_frame(frame: &[u8]) -> (header: Option<DataHeader>)
    ensures
        header is Some == is_data_frame(frame@),
        header matches Some(header) ==> header.heads(frame@),
{
    let header = GenericFrame::new(frame, false).ok()?.parse_to_typed::<DataFrame>()?.ok()?.header;
    Some(DataHeader {
        subtype: header.subtype.into_bits(),
        flags: header.fcf_flags.into_bits(),
        address_1: MACAddress(header.address_1.0),
        address_2: MACAddress(header.address_2.0),
        address_3: MACAddress(header.address_3.0),
        address_4: header.address_4.map(|address| MACAddress(address.0)),
        qos: header.qos,
        length: header.length_in_bytes(),
        has_payload: header.subtype.has_payload(),
    })
}

impl DataHeader {
    /// Check whether the frame goes to the distribution system.
    pub fn to_ds(&self) -> (set: bool)
        ensures
            set == (self.flags & FLAG_TO_DS != 0),
    {
        self.flags & FLAG_TO_DS != 0
    }

    /// Check whether the frame comes from the distribution system.
    pub fn from_ds(&self) -> (set: bool)
        ensures
            set == (self.flags & FLAG_FROM_DS != 0),
    {
        self.flags & FLAG_FROM_DS != 0
    }

    /// Check whether the contents of the frame are encrypted.
    pub fn protected(&self) -> (set: bool)
        ensures
            set == (self.flags & FLAG_PROTECTED != 0),
    {
        self.flags & FLAG_PROTECTED != 0
    }

    /// Check whether the body is an aggregate of MSDUs.
    pub fn is_amsdu(&self) -> (amsdu: bool)
        ensures
            amsdu == self.spec_is_amsdu(),
    {
        match self.qos {
            Some(qos) => qos[0] & 0x80 != 0 && self.has_payload,
            None => false,
        }
    }

    /// Get the destination of the frame.
    pub fn destination_address(&self) -> (address: Option<MACAddress>)
        ensures
            address == self.spec_destination_address(),
    {
        if !self.to_ds() {
            Some(self.address_1)
        } else if !self.is_amsdu() {
            Some(self.address_3)
        } else {
            None
        }
    }

    /// Get the source of the frame.
    pub fn source_address(&self) -> (address: Option<MACAddress>)
        ensures
            address == self.spec_source_address(),
    {
        if !self.from_ds() {
            Some(self.address_2)
        } else if self.is_amsdu() {
            None
        } else if !self.to_ds() {
            Some(self.address_3)
        } else {
            self.address_4
        }
    }
}

/// Whether the body of a data frame is an aggregate of MSDUs.
pub open spec fn is_amsdu(frame: Seq<u8>) -> bool {
    &&& subtype_is_qos(frame_subtype(frame))
    &&& subtype_has_payload(frame_subtype(frame))
    &&& frame[qos_offset(frame)] & 0x80 != 0
}

/// Where a data frame is to be delivered.
pub open spec fn destination_of(frame: Seq<u8>) -> Option<Seq<u8>> {
    if !has_flag(frame, FLAG_TO_DS) {
        Some(frame.subrange(4, 10))
    } else if !is_amsdu(frame) {
        Some(frame.subrange(16, 22))
    } else {
        None
    }
}

/// Where a data frame originates.
pub open spec fn source_of(frame: Seq<u8>) -> Option<Seq<u8>> {
    if !has_flag(frame, FLAG_FROM_DS) {
        Some(frame.subrange(10, 16))
    } else if is_amsdu(frame) {
        None
    } else if !has_flag(frame, FLAG_TO_DS) {
        Some(frame.subrange(16, 22))
    } else {
        Some(frame.subrange(24, 30))
    }
}

/// What a header says of its frame is what the bytes of the frame say.
pub proof fn lemma_header_addresses(header: DataHeader, frame: Seq<u8>)
    requires
        is_data_frame(frame),
        header.heads(frame),
    ensures
        header.spec_is_amsdu() == is_amsdu(frame),
        header.spec_destination_address() is Some == destination_of(frame) is Some,
        header.spec_destination_address() matches Some(address) ==> Some(address@)
            == destination_of(frame),
        header.spec_source_address() is Some == source_of(frame) is Some,
        header.spec_source_address() matches Some(address) ==> Some(address@) == source_of(frame),
{
    if let Some(qos) = header.qos {
        assert(qos@[0] == frame.subrange(qos_offset(frame), qos_offset(frame) + 2)[0]);
    }
}

/// Whether a protected frame carries a header that names an extended IV.
///
/// The body of such a frame starts with eight bytes of which the fourth holds the flag.
pub open spec fn crypto_header_readable(frame: Seq<u8>) -> bool {
    is_data_frame(frame) && subtype_has_payload(frame_subtype(frame)) && has_flag(
        frame,
        FLAG_PROTECTED,
    ) ==> {
        &&& data_header_length(frame) + CCMP_HEADER_LENGTH <= frame.len()
        &&& frame[data_header_length(frame) + 3] & 0x20 != 0
    }
}

/// The packet number in the crypto header that starts at `at`.
pub open spec fn wire_packet_number(frame: Seq<u8>, at: int) -> nat {
    le_value(frame.subrange(at, at + 2) + frame.subrange(at + 4, at + 8))
}

/// What the `ieee80211` crate reports of the body of a data frame.
pub struct BodyLayout {
    /// Packet number, if the body is protected.
    pub packet_number: Option<u64>,
    /// Whether the body is an aggregate of MSDUs.
    pub amsdu: bool,
    /// Length of the body behind the crypto header.
    pub length: usize,
}

/// Find the body of a data frame and read the packet number in front of it.
///
/// Calls `ieee80211::data_frame::DataFrame::potentially_wrapped_payload` for a frame without MIC:
/// frames without a body yield nothing, a protected body starts behind an eight byte header
/// that holds the packet number, any other body starts behind the MAC header. The outside
/// function panics on a protected body that is too short or lacks the extended IV flag.
#[verifier::external_body]
fn body_layout(frame: &[u8]) -> (body: Option<BodyLayout>)
    requires
        crypto_header_readable(frame@),
    ensures
        body is Some == (is_data_frame(frame@) && subtype_has_payload(frame_subtype(frame@))),
        body matches Some(body) ==> {
            &&& body.packet_number is Some == has_flag(frame@, FLAG_PROTECTED)
            &&& body.packet_number matches Some(pn) ==> {
                &&& body.length == frame@.len() - data_header_length(frame@) - CCMP_HEADER_LENGTH
                &&& pn as nat == wire_packet_number(frame@, data_header_length(frame@))
            }
            &&& body.packet_number is None ==> body.length == frame@.len() - data_header_length(
                frame@,
            )
            &&& body.amsdu == (subtype_is_qos(frame_subtype(frame@)) && frame@[qos_offset(frame@)]
                & 0x80 != 0)
        },
{
    let data = GenericFrame::new(frame, false).ok()?.parse_to_typed::<DataFrame>()?.ok()?;
    let body = data.potentially_wrapped_payload(Some(MicState::NotPresent))?;
    let packet_number = match body {
        PotentiallyWrappedPayload::Unwrapped(_) => None,
        PotentiallyWrappedPayload::CryptoWrapped(body) => Some(body.crypto_header.packet_number()),
    };
    Some(BodyLayout {
        packet_number,
        amsdu: matches!(body.payload(), DataFrameReadPayload::AMSDU(_)),
        length: body.payload().length_in_bytes(),
    })
}

/// The body of a data frame.
pub struct DataBody<'a> {
    /// Packet number, if the body was protected.
    pub packet_number: Option<u64>,
    /// Whether the body is an aggregate of MSDUs.
    pub amsdu: bool,
    /// The body without crypto header.
    pub payload: &'a [u8],
}

/// Where the body of a data frame starts, behind a crypto header if there is one.
pub open spec fn body_offset(frame: Seq<u8>) -> int {
    data_header_length(frame) + if has_flag(frame, FLAG_PROTECTED) {
        CCMP_HEADER_LENGTH as int
    } else {
        0
    }
}

impl<'a> DataBody<'a> {
    /// Whether this is the body of `frame`.
    pub open spec fn of(&self, frame: Seq<u8>) -> bool {
        &&& self.packet_number is Some == has_flag(frame, FLAG_PROTECTED)
        &&& self.packet_number matches Some(pn) ==> pn as nat == wire_packet_number(
            frame,
            data_header_length(frame),
        )
        &&& self.payload@ == frame.subrange(body_offset(frame), frame.len() as int)
        &&& self.amsdu == (subtype_is_qos(frame_subtype(frame)) && frame[qos_offset(frame)] & 0x80
            != 0)
    }
}

/// Get the body of a data frame that has no MIC.
pub fn open_body<'a>(frame: &'a [u8]) -> (body: Option<DataBody<'a>>)
    requires
        crypto_header_readable(frame@),
    ensures
        body is Some == (is_data_frame(frame@) && subtype_has_payload(frame_subtype(frame@))),
        body matches Some(body) ==> body.of(frame@),
{
    match body_layout(frame) {
        Some(layout) => {
            let length: usize = frame.len();
            Some(
                DataBody {
                    packet_number: layout.packet_number,
                    amsdu: layout.amsdu,
                    payload: &frame[length - layout.length..length],
                },
            )
        },
        None => None,
    }
}

/// Check whether the body of a frame can be read, as [open_body] demands.
pub fn check_crypto_header(frame: &[u8]) -> (readable: bool)
    ensures
        readable == crypto_header_readable(frame@),
{
    match parse_data_frame(frame) {
        Some(header) => !header.has_payload || !header.protected() || (frame.len() - header.length
            >= CCMP_HEADER_LENGTH && frame[header.length + 3] & 0x20 != 0),
        None => true,
    }
}

/// One MSDU of an aggregate.
pub struct AmsduSubframe {
    /// Where the MSDU is to be delivered.
    pub destination_address: MACAddress,
    /// Where the MSDU originates.
    pub source_address: MACAddress,
    /// The MSDU.
    pub payload: Vec<u8>,
    /// How many bytes of the aggregate follow.
    pub remaining: usize,
}

/// The length of the first MSDU of an aggregate.
pub open spec fn subframe_length(amsdu: Seq<u8>) -> int {
    le_value(amsdu.subrange(12, 14)) as int
}

/// Whether `amsdu` starts with a whole MSDU.
pub open spec fn has_subframe(amsdu: Seq<u8>) -> bool {
    amsdu.len() >= 14 && 14 + subframe_length(amsdu) <= amsdu.len()
}

/// How much of an aggregate its first MSDU takes up, padded to a multiple of four bytes.
pub open spec fn subframe_span(amsdu: Seq<u8>) -> int {
    (14 + subframe_length(amsdu) + 3) / 4 * 4
}

/// Take the first MSDU off an aggregate.
///
/// Calls `next` on `ieee80211::data_frame::amsdu::AMSDUSubframeIterator`: two addresses, the
/// length as a little endian number, the MSDU and padding to a multiple of four bytes. The
/// outside function panics where the padding is cut off.
#[verifier::external_body]
pub(crate) fn first_subframe(amsdu: &[u8]) -> (subframe: Option<AmsduSubframe>)
    requires
        has_subframe(amsdu@) ==> subframe_span(amsdu@) <= amsdu@.len(),
    ensures
        subframe is Some == has_subframe(amsdu@),
        subframe matches Some(subframe) ==> {
            &&& subframe.destination_address@ == amsdu@.subrange(0, 6)
            &&& subframe.source_address@ == amsdu@.subrange(6, 12)
            &&& subframe.payload@ == amsdu@.subrange(14, 14 + subframe_length(amsdu@))
            &&& subframe.remaining == amsdu@.len() - subframe_span(amsdu@)
        },
{
    let mut subframes = AMSDUSubframeIterator::from_bytes(amsdu);
    let subframe = subframes.next()?;
    Some(AmsduSubframe {
        destination_address: MACAddress(subframe.destination_address.0),
        source_address: MACAddress(subframe.source_address.0),
        payload: subframe.payload.to_vec(),
        remaining: subframes.length_in_bytes(),
    })
}

/// The header in front of a CCMP body: a packet number of 48 bits and a key identifier of two.
pub open spec fn crypto_header(packet_number: u64, key_id: u8) -> Seq<u8> {
    let pn = le_bytes(packet_number as nat, 6);
    pn.subrange(0, 2) + seq![0u8, 0x20 | (key_id << 6)] + pn.subrange(2, 6)
}

/// Serialize the header in front of a CCMP body.
///
/// Calls `ieee80211::crypto::CryptoHeader::new` and writes it: the packet number in little
/// endian order, its first two bytes apart from the others, and between them a reserved byte
/// and a byte with the extended IV flag and the key identifier. What is out of range is cut off;
/// only where both numbers are out of range there is no header.
#[verifier::external_body]
pub(crate) fn serialize_crypto_header(packet_number: u64, key_id: u8) -> (header: [u8; 8])
    requires
        packet_number <= MAX_PN || key_id <= 3,
    ensures
        header@ == crypto_header(packet_number, key_id),
{
    let mut header = [0; 8];
    header.pwrite(CryptoHeader::new(packet_number, key_id).unwrap(), 0).unwrap();
    header
}

/// What all frames have in common.
#[derive(Clone, Copy, Debug)]
pub struct GenericHeader {
    /// Type and subtype from the frame control field.
    pub kind: u8,
    /// First address.
    pub address_1: MACAddress,
}

/// Parse what all frames have in common.
///
/// Calls `ieee80211::GenericFrame::new`, which demands ten bytes, and reads the type bits of
/// `GenericFrame::frame_control_field` and `GenericFrame::address_1`.
#[verifier::external_body]
pub(crate) fn parse_generic(frame: &[u8]) -> (header: Option<GenericHeader>)
    ensures
        header is Some == (frame@.len() >= 10),
        header matches Some(header) ==> {
            &&& header.kind == frame@[0] >> 2
            &&& header.address_1@ == frame@.subrange(4, 10)
        },
{
    let frame = GenericFrame::new(frame, false).ok()?;
    Some(GenericHeader {
        kind: frame.frame_control_field().frame_type().into_bits(),
        address_1: MACAddress(frame.address_1().0),
    })
}

impl GenericHeader {
    /// Check whether the frame is a management frame of the given subtype.
    pub(crate) fn is_management(&self, subtype: u8, Ghost(frame): Ghost<Seq<u8>>) -> (matches: bool)
        requires
            self.kind == frame[0] >> 2,
        ensures
            matches == is_management(frame, subtype),
    {
        proof {
            lemma_subtype_bits(frame[0]);
        }
        self.kind & 3 == 0 && self.kind >> 2 == subtype
    }

    /// Check whether the frame is a data frame.
    pub(crate) fn is_data(&self, Ghost(frame): Ghost<Seq<u8>>) -> (matches: bool)
        requires
            self.kind == frame[0] >> 2,
        ensures
            matches == (frame_type(frame) == 2),
    {
        self.kind & 3 == 2
    }
}

/// Whether a frame is a management frame of the given subtype.
pub open spec fn is_management(frame: Seq<u8>, subtype: u8) -> bool {
    frame_type(frame) == 0 && frame_subtype(frame) == subtype
}

/// The subtype follows the type.
proof fn lemma_subtype_bits(control: u8)
    ensures
        (control >> 2) >> 2 == control >> 4,
{
    assert((control >> 2) >> 2 == control >> 4) by (bit_vector);
}

/// Whether a data frame carries EAPOL, going by the protocol in its LLC header.
pub open spec fn carries_eapol(frame: Seq<u8>) -> bool {
    let header = data_header_length(frame);
    &&& is_data_frame(frame)
    &&& subtype_has_payload(frame_subtype(frame))
    &&& header + 8 <= frame.len()
    &&& frame[header + 6] == 0x88
    &&& frame[header + 7] == 0x8e
}

/// Check whether a frame is an EAPOL key frame.
///
/// Calls `ieee80211::GenericFrame::is_eapol_key_frame`, which looks at the protocol behind the MAC
/// header of a data frame with a body, and at nothing else.
#[verifier::external_body]
pub(crate) fn is_eapol_key_frame(frame: &[u8]) -> (eapol: bool)
    requires
        frame@.len() >= 10,
    ensures
        eapol == carries_eapol(frame@),
{
    GenericFrame::new(frame, false).unwrap().is_eapol_key_frame()
}

} // verus!

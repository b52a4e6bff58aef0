//! IEEE 802.11 management frames.
use core::marker::PhantomData;
use vstd::prelude::*;

use crate::bytes::{le_bytes, le_value, overwrite};
use crate::frame::{frame_type, has_flag, is_management, FLAG_ORDER};
use crate::mac::MACAddress;
use ieee80211::common::{
    CapabilitiesInformation, IEEE80211AuthenticationAlgorithmNumber, IEEE80211Reason,
    IEEE80211StatusCode,
};
use ieee80211::mgmt_frame::body::{
    AssociationRequestBody, AuthenticationBody, DeauthenticationBody,
};
use ieee80211::mgmt_frame::{
    AssociationRequestFrame, AssociationResponseFrame, AuthenticationFrame, BeaconFrame,
    DeauthenticationFrame, ManagementFrameHeader, ProbeResponseFrame,
};
use ieee80211::scroll::{Pread, Pwrite};
use ieee80211::GenericFrame;

verus! {

/// Subtype of association responses.
pub const SUBTYPE_ASSOCIATION_RESPONSE: u8 = 1;
/// Subtype of probe responses.
pub const SUBTYPE_PROBE_RESPONSE: u8 = 5;
/// Subtype of beacons.
pub const SUBTYPE_BEACON: u8 = 8;
/// Subtype of authentication frames.
pub const SUBTYPE_AUTHENTICATION: u8 = 11;
/// Subtype of deauthentication frames.
pub const SUBTYPE_DEAUTHENTICATION: u8 = 12;
/// Algorithm number of open system authentication.
pub const ALGORITHM_OPEN_SYSTEM: u16 = 0;
/// Reason code of a station that leaves the network.
pub const REASON_LEAVING_NETWORK: u16 = 3;
/// Status code of success.
pub const STATUS_SUCCESS: u16 = 0;
/// The largest association ID.
pub const MAX_AID: u16 = 2007;

/// The length of the MAC header of a management frame.
pub open spec fn mgmt_header_length(frame: Seq<u8>) -> int {
    24 + if has_flag(frame, FLAG_ORDER) { 4int } else { 0 }
}

/// Whether `frame` is a management frame with a body of at least `length` bytes.
pub open spec fn has_mgmt_body(frame: Seq<u8>, length: int) -> bool {
    &&& frame.len() >= 24
    &&& frame_type(frame) == 0
    &&& mgmt_header_length(frame) + length <= frame.len()
}

/// The 16 bit field at `at` in the body of a management frame.
pub open spec fn mgmt_field(frame: Seq<u8>, at: int) -> nat {
    let start = mgmt_header_length(frame) + at;
    le_value(frame.subrange(start, start + 2))
}

/// Whether `frame` is a beacon.
pub open spec fn is_beacon(frame: Seq<u8>) -> bool {
    has_mgmt_body(frame, 12) && is_management(frame, SUBTYPE_BEACON)
}

/// Whether `frame` is a probe response.
pub open spec fn is_probe_response(frame: Seq<u8>) -> bool {
    has_mgmt_body(frame, 12) && is_management(frame, SUBTYPE_PROBE_RESPONSE)
}

/// The elements of a beacon or probe response.
pub open spec fn beacon_elements(frame: Seq<u8>) -> Seq<u8> {
    frame.subrange(mgmt_header_length(frame) + 12, frame.len() as int)
}

/// The parts of a beacon or probe response that identify a network.
pub struct Beacon {
    /// Address of the network.
    pub bssid: MACAddress,
    /// The elements.
    pub elements: Vec<u8>,
}

/// Parse a beacon.
///
/// Calls `ieee80211::GenericFrame::parse_to_typed::<BeaconFrame>`: the BSSID is the third address,
/// and the elements follow the timestamp, the interval and the capabilities.
#[verifier::external_body]
pub(crate) fn parse_beacon(frame: &[u8]) -> (beacon: Option<Beacon>)
    ensures
        beacon is Some == is_beacon(frame@),
        beacon matches Some(beacon) ==> {
            &&& beacon.bssid@ == frame@.subrange(16, 22)
            &&& beacon.elements@ == beacon_elements(frame@)
        },
{
    let beacon = GenericFrame::new(frame, false).ok()?.parse_to_typed::<BeaconFrame>()?.ok()?;
    Some(Beacon {
        bssid: MACAddress(beacon.header.bssid.0),
        elements: beacon.body.elements.bytes.to_vec(),
    })
}

/// Parse a probe response, which has the layout of a beacon.
///
/// Calls `ieee80211::GenericFrame::parse_to_typed::<ProbeResponseFrame>`: the BSSID is the third
/// address, and the elements follow the timestamp, the interval and the capabilities.
#[verifier::external_body]
pub(crate) fn parse_probe_response(frame: &[u8]) -> (response: Option<Beacon>)
    ensures
        response is Some == is_probe_response(frame@),
        response matches Some(response) ==> {
            &&& response.bssid@ == frame@.subrange(16, 22)
            &&& response.elements@ == beacon_elements(frame@)
        },
{
    let response = GenericFrame::new(frame, false).ok()?.parse_to_typed::<
        ProbeResponseFrame,
    >()?.ok()?;
    Some(Beacon {
        bssid: MACAddress(response.header.bssid.0),
        elements: response.body.elements.bytes.to_vec(),
    })
}

/// Whether `frame` is a deauthentication frame.
pub open spec fn is_deauthentication(frame: Seq<u8>) -> bool {
    has_mgmt_body(frame, 2) && is_management(frame, SUBTYPE_DEAUTHENTICATION)
}

/// Parse a deauthentication frame, and get the reason.
///
/// Calls `ieee80211::GenericFrame::parse_to_typed::<DeauthenticationFrame>`.
#[verifier::external_body]
pub(crate) fn parse_deauthentication(frame: &[u8]) -> (reason: Option<u16>)
    ensures
        reason is Some == is_deauthentication(frame@),
        reason matches Some(reason) ==> reason as nat == mgmt_field(frame@, 0),
{
    let deauthentication = GenericFrame::new(frame, false).ok()?.parse_to_typed::<
        DeauthenticationFrame,
    >()?.ok()?;
    Some(deauthentication.body.reason.into_bits())
}

/// Parse an authentication frame, and get the status code.
///
/// Calls `pread::<ieee80211::mgmt_frame::AuthenticationFrame>`, which takes the body of any
/// management frame for that of an authentication frame: algorithm, sequence number, status.
#[verifier::external_body]
pub(crate) fn parse_authentication(frame: &[u8]) -> (status: Option<u16>)
    ensures
        status is Some == has_mgmt_body(frame@, 6),
        status matches Some(status) ==> status as nat == mgmt_field(frame@, 4),
{
    let authentication = frame.pread::<AuthenticationFrame>(0).ok()?;
    Some(authentication.body.status_code.into_bits())
}

/// Whether `frame` can be read as an association response: its association ID is zero, or in range
/// without its two highest bits.
pub open spec fn is_association_response(frame: Seq<u8>) -> bool {
    &&& has_mgmt_body(frame, 6)
    &&& mgmt_field(frame, 4) == 0 || 1 <= mgmt_field(frame, 4) % 0x4000 <= MAX_AID
}

/// The outcome of an association.
pub struct AssociationResponse {
    /// Status code.
    pub status_code: u16,
    /// The association ID that was assigned.
    pub association_id: Option<u16>,
}

/// Parse an association response.
///
/// Calls `pread::<ieee80211::mgmt_frame::AssociationResponseFrame>`, which takes the body of any
/// management frame for that of an association response: capabilities, status, association ID.
#[verifier::external_body]
pub(crate) fn parse_association_response(frame: &[u8]) -> (response: Option<AssociationResponse>)
    ensures
        response is Some == is_association_response(frame@),
        response matches Some(response) ==> {
            &&& response.status_code as nat == mgmt_field(frame@, 2)
            &&& response.association_id is None == (mgmt_field(frame@, 4) == 0)
            &&& response.association_id matches Some(aid) ==> aid as nat == mgmt_field(frame@, 4)
                % 0x4000
        },
{
    let response = frame.pread::<AssociationResponseFrame>(0).ok()?;
    Some(AssociationResponse {
        status_code: response.body.status_code.into_bits(),
        association_id: response.body.association_id.map(|aid| aid.aid()),
    })
}

/// The MAC header of a management frame.
pub open spec fn mgmt_header(
    subtype: u8,
    duration: u16,
    receiver: Seq<u8>,
    transmitter: Seq<u8>,
    bssid: Seq<u8>,
) -> Seq<u8> {
    seq![subtype << 4, 0] + le_bytes(duration as nat, 2) + receiver + transmitter + bssid + seq![
        0u8,
        0,
    ]
}

/// An authentication frame from `own` to the access point `bssid`, without elements.
pub open spec fn authentication(
    bssid: Seq<u8>,
    own: Seq<u8>,
    algorithm: u16,
    sequence_number: u16,
    status: u16,
) -> Seq<u8> {
    mgmt_header(SUBTYPE_AUTHENTICATION, 0, bssid, own, bssid) + le_bytes(algorithm as nat, 2)
        + le_bytes(sequence_number as nat, 2) + le_bytes(status as nat, 2)
}

/// Serialize an authentication frame.
///
/// Writes an `ieee80211::mgmt_frame::AuthenticationFrame` without elements.
#[verifier::external_body]
pub(crate) fn serialize_authentication(
    bssid: MACAddress,
    own: MACAddress,
    algorithm: u16,
    sequence_number: u16,
    status: u16,
    buffer: &mut [u8],
) -> (written: usize)
    requires
        old(buffer)@.len() >= 30,
    ensures
        written == 30,
        final(buffer)@ == overwrite(
            old(buffer)@,
            0,
            authentication(bssid@, own@, algorithm, sequence_number, status),
        ),
{
    let header = ManagementFrameHeader { receiver_address: bssid.0.into(), bssid: bssid.0.into(),
        transmitter_address: own.0.into(), ..Default::default() };
    let body = AuthenticationBody { status_code: IEEE80211StatusCode::from_bits(status),
        authentication_algorithm_number: IEEE80211AuthenticationAlgorithmNumber::from_bits(algorithm),
        authentication_transaction_sequence_number: sequence_number,
        elements: ieee80211::common::Empty, _phantom: PhantomData };
    buffer.pwrite(AuthenticationFrame { header, body }, 0).unwrap()
}

/// The frame by which `own` asks the access point `bssid` for association.
pub open spec fn association_request(
    bssid: Seq<u8>,
    own: Seq<u8>,
    duration: u16,
    capabilities: u16,
    elements: Seq<u8>,
) -> Seq<u8> {
    mgmt_header(0, duration, bssid, own, bssid) + le_bytes(capabilities as nat, 2) + seq![0u8, 0]
        + elements
}

/// Serialize an association request.
///
/// Writes an `ieee80211::mgmt_frame::AssociationRequestFrame` with the given capabilities and
/// elements and a listen interval of zero.
#[verifier::external_body]
pub(crate) fn serialize_association_request(
    bssid: MACAddress,
    own: MACAddress,
    duration: u16,
    capabilities: u16,
    elements: &[u8],
    buffer: &mut [u8],
) -> (written: usize)
    requires
        old(buffer)@.len() >= 28 + elements@.len(),
    ensures
        written == 28 + elements@.len(),
        final(buffer)@ == overwrite(
            old(buffer)@,
            0,
            association_request(bssid@, own@, duration, capabilities, elements@),
        ),
{
    let header = ManagementFrameHeader { receiver_address: bssid.0.into(), bssid: bssid.0.into(),
        transmitter_address: own.0.into(), duration, ..Default::default() };
    let body = AssociationRequestBody {
        capabilities_info: CapabilitiesInformation::from_bits(capabilities), listen_interval: 0,
        elements, _phantom: PhantomData };
    buffer.pwrite(AssociationRequestFrame { header, body }, 0).unwrap()
}

/// A deauthentication frame from `transmitter` to `receiver`, without elements.
pub open spec fn deauthentication(
    receiver: Seq<u8>,
    transmitter: Seq<u8>,
    bssid: Seq<u8>,
    reason: u16,
) -> Seq<u8> {
    mgmt_header(SUBTYPE_DEAUTHENTICATION, 0, receiver, transmitter, bssid) + le_bytes(
        reason as nat,
        2,
    )
}

/// Serialize a deauthentication frame.
///
/// Writes an `ieee80211::mgmt_frame::DeauthenticationFrame` without elements.
#[verifier::external_body]
pub(crate) fn serialize_deauthentication(
    receiver: MACAddress,
    transmitter: MACAddress,
    bssid: MACAddress,
    reason: u16,
    buffer: &mut [u8],
) -> (written: usize)
    requires
        old(buffer)@.len() >= 26,
    ensures
        written == 26,
        final(buffer)@ == overwrite(
            old(buffer)@,
            0,
            deauthentication(receiver@, transmitter@, bssid@, reason),
        ),
{
    let header = ManagementFrameHeader { receiver_address: receiver.0.into(),
        transmitter_address: transmitter.0.into(), bssid: bssid.0.into(), ..Default::default() };
    let body = DeauthenticationBody { reason: IEEE80211Reason::from_bits(reason),
        elements: ieee80211::common::Empty, _phantom: PhantomData };
    buffer.pwrite(DeauthenticationFrame { header, body }, 0).unwrap()
}

} // verus!

//! The fields that action frames are made of.
//!
//! Fields stand one after the other: a type, a length of two bytes and that many bytes.
use core::iter::Empty;
use core::marker::PhantomData;
use core::num::NonZero;
use vstd::prelude::*;

use crate::awdl::peer::{SynchronizationParameters, WindowPosition};
use crate::bytes::{be_value, le_bytes, le_value, overwrite, read_le16};
use awdl_frame_parser::common::{AWDLStr, AWDLVersion, ReadLabelIterator};
use awdl_frame_parser::tlvs::data_path::{
    ChannelMap, DataPathChannel, DataPathExtendedFlags, DataPathFlags, DataPathStateTLV,
    UnicastOptions,
};
use awdl_frame_parser::tlvs::dns_sd::dns_record::AWDLDnsRecord;
use awdl_frame_parser::tlvs::dns_sd::ServiceResponseTLV;
use awdl_frame_parser::tlvs::sync_elect::channel::LegacyFlags;
use awdl_frame_parser::tlvs::sync_elect::channel_sequence::ChannelSequence;
use awdl_frame_parser::tlvs::sync_elect::{
    ChannelSequenceTLV, ElectionParametersTLV, ElectionParametersV2TLV,
    SynchronizationParametersTLV,
};
use awdl_frame_parser::tlvs::version::{AWDLDeviceClass, VersionTLV};
use awdl_frame_parser::tlvs::{RawAWDLTLV, ReadTLVs, AWDLTLV};
use ieee80211::mac_parser::MACAddress as ParserAddress;
use ieee80211::scroll::Pwrite;

verus! {

/// Type of service responses.
pub const TLV_SERVICE_RESPONSE: u8 = 2;

/// Type of synchronization parameters.
pub const TLV_SYNCHRONIZATION: u8 = 4;

/// Type of election parameters.
pub const TLV_ELECTION: u8 = 5;

/// Type of channel sequences.
pub const TLV_CHANNEL_SEQUENCE: u8 = 0x12;

/// Type of election parameters of the second version.
pub const TLV_ELECTION_V2: u8 = 0x18;

/// Whether the bytes are a channel sequence: of 16 channels, with one or two bytes for each.
pub open spec fn is_channel_sequence(value: Seq<u8>) -> bool {
    &&& value.len() >= 22
    &&& value[0] == 15
    &&& value[3] != 255
    &&& value[1] == 0 || ((value[1] == 1 || value[1] == 3) && value.len() >= 38)
}

/// The channels in a channel sequence. They stand alone, behind their flags, or before their
/// operating class.
pub open spec fn channels(value: Seq<u8>) -> Seq<u8> {
    Seq::new(
        16,
        |i: int|
            if value[1] == 0 {
                value[6 + i]
            } else if value[1] == 1 {
                value[7 + 2 * i]
            } else {
                value[6 + 2 * i]
            },
    )
}

/// Where the record starts in a service response. The name before it has to hold its domain.
pub open spec fn record_offset(value: Seq<u8>) -> int {
    1 + le_value(value.subrange(0, 2)) as int
}

/// Whether the bytes are a service response.
pub open spec fn is_service_response(value: Seq<u8>) -> bool {
    &&& value.len() >= 2
    &&& record_offset(value) >= 4
    &&& value.len() > record_offset(value)
    &&& {
        let at = record_offset(value);
        value.len() >= at + if value[at] == 0x0c {
            7int
        } else if value[at] == 0x21 {
            13
        } else {
            5
        }
    }
}

/// The domain and the port in a service response, if it holds a service record.
pub open spec fn service_record(value: Seq<u8>) -> Option<(u16, u16)> {
    let at = record_offset(value);
    if value[at] == 0x21 {
        Some(
            (
                be_value(value.subrange(at - 2, at)) as u16,
                be_value(value.subrange(at + 9, at + 11)) as u16,
            ),
        )
    } else {
        None
    }
}

/// Whether the bytes are an acceptable value of a field of the given type.
pub open spec fn is_acceptable(tlv_type: u8, value: Seq<u8>) -> bool {
    if tlv_type == TLV_SERVICE_RESPONSE {
        is_service_response(value)
    } else if tlv_type == TLV_SYNCHRONIZATION {
        value.len() >= 33 && is_channel_sequence(value.subrange(33, value.len() as int))
    } else if tlv_type == TLV_ELECTION {
        value.len() >= 19
    } else if tlv_type == TLV_CHANNEL_SEQUENCE {
        is_channel_sequence(value)
    } else {
        tlv_type == TLV_ELECTION_V2 && value.len() >= 40
    }
}

/// Whether lengths and counts in the value of a field are in the range that they are calculated
/// with.
pub open spec fn is_in_range(tlv_type: u8, value: Seq<u8>) -> bool {
    if tlv_type == TLV_SERVICE_RESPONSE {
        value.len() >= 2 ==> {
            let at = record_offset(value);
            &&& at >= 2
            &&& value.len() >= at ==> at >= 4
            &&& value.len() > at ==> if value[at] == 0x0c {
                value.len() < at + 5 || value.len() >= at + 7
            } else if value[at] == 0x21 {
                value.len() < at + 11 || value.len() >= at + 13
            } else {
                value.len() >= at + 5
            }
        }
    } else if tlv_type == TLV_SYNCHRONIZATION {
        value.len() > 33 ==> value[33] != 255
    } else if tlv_type == TLV_CHANNEL_SEQUENCE {
        value.len() > 0 ==> value[0] != 255
    } else {
        true
    }
}

/// The length of the value of the first field.
pub open spec fn value_length(tlvs: Seq<u8>) -> int {
    le_value(tlvs.subrange(1, 3)) as int
}

/// Whether the first field is complete. The list ends where a field is cut short.
pub open spec fn has_tlv(tlvs: Seq<u8>) -> bool {
    tlvs.len() >= 3 && 3 + value_length(tlvs) <= tlvs.len()
}

/// The value of the first field.
pub open spec fn first_value(tlvs: Seq<u8>) -> Seq<u8> {
    tlvs.subrange(3, 3 + value_length(tlvs))
}

/// What follows the first field.
pub open spec fn other_tlvs(tlvs: Seq<u8>) -> Seq<u8> {
    tlvs.subrange(3 + value_length(tlvs), tlvs.len() as int)
}

/// The value of the first field of the given type that is acceptable.
pub open spec fn first_tlv(tlvs: Seq<u8>, tlv_type: u8) -> Option<Seq<u8>>
    decreases tlvs.len(),
{
    if !has_tlv(tlvs) {
        None
    } else if tlvs[0] == tlv_type && is_acceptable(tlv_type, first_value(tlvs)) {
        Some(first_value(tlvs))
    } else {
        first_tlv(other_tlvs(tlvs), tlv_type)
    }
}

/// The service responses, in order: domain and port of those that hold a service record.
pub open spec fn service_records(tlvs: Seq<u8>) -> Seq<Option<(u16, u16)>>
    decreases tlvs.len(),
{
    if !has_tlv(tlvs) {
        seq![]
    } else if tlvs[0] == TLV_SERVICE_RESPONSE && is_service_response(first_value(tlvs)) {
        seq![service_record(first_value(tlvs))] + service_records(other_tlvs(tlvs))
    } else {
        service_records(other_tlvs(tlvs))
    }
}

/// Whether the fields of the given type can be calculated with, up to the first that is acceptable
/// or all of them.
pub open spec fn are_in_range(tlvs: Seq<u8>, tlv_type: u8, all: bool) -> bool
    decreases tlvs.len(),
{
    if !has_tlv(tlvs) {
        true
    } else if tlvs[0] == tlv_type {
        &&& is_in_range(tlv_type, first_value(tlvs))
        &&& !all && is_acceptable(tlv_type, first_value(tlvs)) || are_in_range(
            other_tlvs(tlvs),
            tlv_type,
            all,
        )
    } else {
        are_in_range(other_tlvs(tlvs), tlv_type, all)
    }
}

/// Find the first channel sequence.
///
/// Calls `awdl_frame_parser::tlvs::ReadTLVs::get_first_tlv::<ChannelSequenceTLV>`, which adds one
/// to the count of channels that it reads. Lengths are read in the byte order of a little endian
/// machine.
#[verifier::external_body]
pub(crate) fn find_channel_sequence(tlvs: &[u8]) -> (sequence: Option<[u8; 16]>)
    requires
        are_in_range(tlvs@, TLV_CHANNEL_SEQUENCE, false),
    ensures
        sequence is Some == first_tlv(tlvs@, TLV_CHANNEL_SEQUENCE) is Some,
        sequence matches Some(sequence) ==> sequence@ == channels(
            first_tlv(tlvs@, TLV_CHANNEL_SEQUENCE)->Some_0,
        ),
{
    match ReadTLVs::new(tlvs).get_first_tlv::<ChannelSequenceTLV>()?.channel_sequence {
        ChannelSequence::Simple(channels) => Some(channels),
        ChannelSequence::Legacy(channels) => Some(channels.map(|channel| channel.1)),
        ChannelSequence::OpClass(channels) => Some(channels.map(|channel| channel.0)),
    }
}

/// Find the first synchronization parameters.
///
/// Calls `awdl_frame_parser::tlvs::ReadTLVs::get_first_tlv::<SynchronizationParametersTLV>`, which
/// passes over those that do not end in a channel sequence.
#[verifier::external_body]
pub(crate) fn find_window_position(tlvs: &[u8]) -> (position: Option<WindowPosition>)
    requires
        are_in_range(tlvs@, TLV_SYNCHRONIZATION, false),
    ensures
        position is Some == first_tlv(tlvs@, TLV_SYNCHRONIZATION) is Some,
        position matches Some(position) ==> {
            let value = first_tlv(tlvs@, TLV_SYNCHRONIZATION)->Some_0;
            &&& position.aw_period == le_value(value.subrange(5, 7))
            &&& position.remaining_aw_length == le_value(value.subrange(15, 17))
            &&& position.aw_seq_number == le_value(value.subrange(29, 31))
        },
{
    let tlv = ReadTLVs::new(tlvs).get_first_tlv::<SynchronizationParametersTLV>()?;
    Some(WindowPosition {
        aw_period: tlv.aw_period,
        remaining_aw_length: tlv.remaining_aw_length,
        aw_seq_number: tlv.aw_seq_number,
    })
}

/// The parameters of the election, in their first version.
#[derive(Clone, Copy, Debug)]
pub struct ElectionParameters {
    pub flags: u8,
    pub id: u16,
    pub distance_to_master: u8,
    pub master_address: [u8; 6],
    pub master_metric: u32,
    pub self_metric: u32,
}

impl ElectionParameters {
    /// Whether these are the parameters in a field.
    pub open spec fn stand_in(&self, value: Seq<u8>) -> bool {
        &&& self.flags == value[0]
        &&& self.id == le_value(value.subrange(1, 3))
        &&& self.distance_to_master == value[3]
        &&& self.master_address@ == value.subrange(5, 11)
        &&& self.master_metric == le_value(value.subrange(11, 15))
        &&& self.self_metric == le_value(value.subrange(15, 19))
    }
}

/// Find the first election parameters.
///
/// Calls `awdl_frame_parser::tlvs::ReadTLVs::get_first_tlv::<ElectionParametersTLV>`.
#[verifier::external_body]
pub(crate) fn find_election(tlvs: &[u8]) -> (parameters: Option<ElectionParameters>)
    ensures
        parameters is Some == first_tlv(tlvs@, TLV_ELECTION) is Some,
        parameters matches Some(parameters) ==> parameters.stand_in(
            first_tlv(tlvs@, TLV_ELECTION)->Some_0,
        ),
{
    let tlv = ReadTLVs::new(tlvs).get_first_tlv::<ElectionParametersTLV>()?;
    Some(ElectionParameters {
        flags: tlv.flags,
        id: tlv.id,
        distance_to_master: tlv.distance_to_master,
        master_address: *tlv.master_address,
        master_metric: tlv.master_metric,
        self_metric: tlv.self_metric,
    })
}

/// The parameters of the election, in their second version.
#[derive(Clone, Copy, Debug)]
pub struct ElectionParametersV2 {
    pub master_address: [u8; 6],
    pub sync_address: [u8; 6],
    pub master_counter: u32,
    pub distance_to_master: u32,
    pub master_metric: u32,
    pub self_metric: u32,
    pub election_id: u32,
    pub self_counter: u32,
}

impl ElectionParametersV2 {
    /// Whether these are the parameters in a field.
    pub open spec fn stand_in(&self, value: Seq<u8>) -> bool {
        &&& self.master_address@ == value.subrange(0, 6)
        &&& self.sync_address@ == value.subrange(6, 12)
        &&& self.master_counter == le_value(value.subrange(12, 16))
        &&& self.distance_to_master == le_value(value.subrange(16, 20))
        &&& self.master_metric == le_value(value.subrange(20, 24))
        &&& self.self_metric == le_value(value.subrange(24, 28))
        &&& self.election_id == le_value(value.subrange(28, 32))
        &&& self.self_counter == le_value(value.subrange(36, 40))
    }
}

/// Find the first election parameters of the second version.
///
/// Calls `awdl_frame_parser::tlvs::ReadTLVs::get_first_tlv::<ElectionParametersV2TLV>`.
#[verifier::external_body]
pub(crate) fn find_election_v2(tlvs: &[u8]) -> (parameters: Option<ElectionParametersV2>)
    ensures
        parameters is Some == first_tlv(tlvs@, TLV_ELECTION_V2) is Some,
        parameters matches Some(parameters) ==> parameters.stand_in(
            first_tlv(tlvs@, TLV_ELECTION_V2)->Some_0,
        ),
{
    let tlv = ReadTLVs::new(tlvs).get_first_tlv::<ElectionParametersV2TLV>()?;
    Some(ElectionParametersV2 {
        master_address: *tlv.master_address,
        sync_address: *tlv.sync_address,
        master_counter: tlv.master_counter,
        distance_to_master: tlv.distance_to_master,
        master_metric: tlv.master_metric,
        self_metric: tlv.self_metric,
        election_id: tlv.election_id,
        self_counter: tlv.self_counter,
    })
}

/// Get all service responses: domain and port of those that hold a service record.
///
/// Calls `awdl_frame_parser::tlvs::ReadTLVs::get_tlvs::<ServiceResponseTLV>`, which passes over
/// responses that are cut short. It subtracts from lengths that it reads, and cuts the head off
/// text records and unknown records without looking at their length.
#[verifier::external_body]
pub(crate) fn get_service_records(tlvs: &[u8]) -> (records: Vec<Option<(u16, u16)>>)
    requires
        are_in_range(tlvs@, TLV_SERVICE_RESPONSE, true),
    ensures
        records@ == service_records(tlvs@),
{
    ReadTLVs::new(tlvs)
        .get_tlvs::<ServiceResponseTLV<'_, ReadLabelIterator<'_>>>()
        .map(|response| match response.record {
            AWDLDnsRecord::SRV { port, .. } => Some((response.name.domain.into_bits(), port)),
            _ => None,
        })
        .collect()
}

/// Check whether the bytes are a channel sequence.
fn check_channel_sequence(value: &[u8]) -> (acceptable: bool)
    ensures
        acceptable == is_channel_sequence(value@),
{
    value.len() >= 22 && value[0] == 15 && value[3] != 255 && (value[1] == 0 || ((value[1] == 1
        || value[1] == 3) && value.len() >= 38))
}

/// Check the value of a field, and tell whether it is acceptable and whether it is in range.
fn check_value(tlv_type: u8, value: &[u8]) -> (checked: (bool, bool))
    ensures
        checked.0 == is_acceptable(tlv_type, value@),
        checked.1 == is_in_range(tlv_type, value@),
{
    let length: usize = value.len();
    if tlv_type == TLV_SERVICE_RESPONSE {
        if length < 2 {
            return (false, true);
        }
        let at: usize = 1 + read_le16(value, 0) as usize;
        if at < 2 || (length >= at && at < 4) {
            return (false, false);
        }
        if length <= at {
            return (false, true);
        }
        if value[at] == 0x0c {
            (length >= at + 7, length < at + 5 || length >= at + 7)
        } else if value[at] == 0x21 {
            (length >= at + 13, length < at + 11 || length >= at + 13)
        } else {
            (length >= at + 5, length >= at + 5)
        }
    } else if tlv_type == TLV_SYNCHRONIZATION {
        if length < 33 {
            (false, true)
        } else {
            let sequence = vstd::slice::slice_subrange(value, 33, length);
            (check_channel_sequence(sequence), length == 33 || value[33] != 255)
        }
    } else if tlv_type == TLV_ELECTION {
        (length >= 19, true)
    } else if tlv_type == TLV_CHANNEL_SEQUENCE {
        (check_channel_sequence(value), length == 0 || value[0] != 255)
    } else {
        (tlv_type == TLV_ELECTION_V2 && length >= 40, true)
    }
}

/// Check whether the fields of the given type can be calculated with, up to the first that is
/// acceptable or all of them.
pub fn check_tlvs(tlvs: &[u8], tlv_type: u8, all: bool) -> (in_range: bool)
    ensures
        in_range == are_in_range(tlvs@, tlv_type, all),
{
    let mut at: usize = 0;
    assert(tlvs@.subrange(0, tlvs@.len() as int) =~= tlvs@);
    loop
        invariant
            at <= tlvs@.len(),
            are_in_range(tlvs@, tlv_type, all) == are_in_range(
                tlvs@.subrange(at as int, tlvs@.len() as int),
                tlv_type,
                all,
            ),
        decreases tlvs@.len() - at,
    {
        let ghost rest = tlvs@.subrange(at as int, tlvs@.len() as int);
        if tlvs.len() - at < 3 {
            return true;
        }
        let length: usize = read_le16(tlvs, at + 1) as usize;
        assert(rest.subrange(1, 3) =~= tlvs@.subrange(at + 1, at + 3));
        if tlvs.len() - at - 3 < length {
            return true;
        }
        let next: usize = at + 3 + length;
        assert(other_tlvs(rest) =~= tlvs@.subrange(next as int, tlvs@.len() as int));
        if tlvs[at] == tlv_type {
            let value = vstd::slice::slice_subrange(tlvs, at + 3, next);
            assert(first_value(rest) =~= value@);
            let checked = check_value(tlv_type, value);
            if !checked.1 {
                return false;
            }
            if !all && checked.0 {
                return true;
            }
        }
        at = next;
    }
}

/// The 16 channels of a sequence, each with a byte before it.
pub open spec fn marked_channels(mark: u8, channels: Seq<u8>) -> Seq<u8> {
    Seq::new(
        32,
        |i: int|
            if i % 2 == 0 {
                mark
            } else {
                channels[i / 2]
            },
    )
}

/// The 16 channels of a sequence, each with a byte behind it.
pub open spec fn classed_channels(channels: Seq<u8>, class: u8) -> Seq<u8> {
    Seq::new(
        32,
        |i: int|
            if i % 2 == 0 {
                channels[i / 2]
            } else {
                class
            },
    )
}

/// Synchronization parameters as a field, where `was` stood before. Reserved bytes are left as
/// they were.
pub open spec fn synchronization_tlv(parameters: SynchronizationParameters, was: Seq<u8>) -> Seq<
    u8,
> {
    seq![TLV_SYNCHRONIZATION, 73, 0, parameters.next_channel] + le_bytes(
        parameters.tx_counter as nat,
        2,
    ) + seq![parameters.master_channel, parameters.guard_time] + le_bytes(
        parameters.aw_period as nat,
        2,
    ) + le_bytes(parameters.af_period as nat, 2) + le_bytes(parameters.awdl_flags as nat, 2)
        + le_bytes(parameters.aw_ext_length as nat, 2) + le_bytes(
        parameters.aw_common_length as nat,
        2,
    ) + le_bytes(parameters.remaining_aw_length as nat, 2) + seq![
        parameters.min_ext_count,
        parameters.max_multicast_ext_count,
        parameters.max_unicast_ext_count,
        parameters.max_af_ext_count,
    ] + parameters.master_address@ + seq![parameters.presence_mode, was[31]] + le_bytes(
        parameters.aw_seq_number as nat,
        2,
    ) + le_bytes(parameters.ap_beacon_alignment_delta as nat, 2) + seq![
        15u8,
        1,
        was[38],
        (parameters.step_count - 1) as u8,
        0xff,
        0xff,
    ] + marked_channels(parameters.channel_flags & 0x3f, parameters.channel_sequence@) + seq![
        was[74],
        was[75],
    ]
}

/// Write synchronization parameters.
///
/// Writes an `awdl_frame_parser::tlvs::AWDLTLV::SynchronizationParameters`, with a channel
/// sequence in the legacy encoding. Of the flags of the channels, the lower six bits are written.
#[verifier::external_body]
pub(crate) fn write_synchronization(
    buffer: &mut [u8],
    at: usize,
    parameters: &SynchronizationParameters,
) -> (written: usize)
    requires
        parameters.step_count >= 1,
        at + 76 <= old(buffer)@.len(),
    ensures
        written == 76,
        final(buffer)@ == overwrite(
            old(buffer)@,
            at as int,
            synchronization_tlv(*parameters, old(buffer)@.subrange(at as int, at + 76)),
        ),
{
    let SynchronizationParameters { next_channel, tx_counter, master_channel, guard_time, aw_period,
        af_period, awdl_flags, aw_ext_length, aw_common_length, remaining_aw_length, min_ext_count,
        max_multicast_ext_count, max_unicast_ext_count, max_af_ext_count, master_address,
        presence_mode, aw_seq_number, ap_beacon_alignment_delta, .. } = *parameters;
    let flags = LegacyFlags::from_bits(parameters.channel_flags);
    let channels = ChannelSequence::Legacy(parameters.channel_sequence.map(|channel| (flags, channel)));
    let step_count = NonZero::new(parameters.step_count).unwrap();
    let channel_sequence = ChannelSequenceTLV { step_count, channel_sequence: channels };
    let tlv = SynchronizationParametersTLV { next_channel, tx_counter, master_channel, guard_time,
        aw_period, af_period, awdl_flags, aw_ext_length, aw_common_length, remaining_aw_length,
        min_ext_count, max_multicast_ext_count, max_unicast_ext_count, max_af_ext_count,
        master_address: master_address.into(), presence_mode, aw_seq_number,
        ap_beacon_alignment_delta, channel_sequence };
    let tlv = AWDLTLV::<Empty<ParserAddress>, Empty<AWDLStr>>::SynchronizationParameters(tlv);
    buffer.pwrite(tlv, at).unwrap()
}

/// A channel sequence as a field, with an operating class for each channel, where `was` stood
/// before. Reserved bytes are left as they were.
pub open spec fn channel_sequence_tlv(
    step_count: u8,
    channels: Seq<u8>,
    class: u8,
    was: Seq<u8>,
) -> Seq<u8> {
    seq![TLV_CHANNEL_SEQUENCE, 41, 0, 15, 3, was[5], (step_count - 1) as u8, 0xff, 0xff]
        + classed_channels(channels, class) + seq![was[41], was[42], was[43]]
}

/// Write a channel sequence.
///
/// Writes an `awdl_frame_parser::tlvs::AWDLTLV::ChannelSequence` with operating classes.
#[verifier::external_body]
pub(crate) fn write_channel_sequence(
    buffer: &mut [u8],
    at: usize,
    step_count: u8,
    channels: [u8; 16],
    class: u8,
) -> (written: usize)
    requires
        step_count >= 1,
        at + 44 <= old(buffer)@.len(),
    ensures
        written == 44,
        final(buffer)@ == overwrite(
            old(buffer)@,
            at as int,
            channel_sequence_tlv(
                step_count,
                channels@,
                class,
                old(buffer)@.subrange(at as int, at + 44),
            ),
        ),
{
    let channel_sequence = ChannelSequence::OpClass(channels.map(|channel| (channel, class)));
    let step_count = NonZero::new(step_count).unwrap();
    let tlv = ChannelSequenceTLV { step_count, channel_sequence };
    let tlv = AWDLTLV::<Empty<ParserAddress>, Empty<AWDLStr>>::ChannelSequence(tlv);
    buffer.pwrite(tlv, at).unwrap()
}

/// Election parameters as a field, where `was` stood before. Reserved bytes are left as they were.
pub open spec fn election_tlv(parameters: ElectionParameters, was: Seq<u8>) -> Seq<u8> {
    seq![TLV_ELECTION, 21, 0, parameters.flags] + le_bytes(parameters.id as nat, 2) + seq![
        parameters.distance_to_master,
        was[7],
    ] + parameters.master_address@ + le_bytes(parameters.master_metric as nat, 4) + le_bytes(
        parameters.self_metric as nat,
        4,
    ) + seq![was[22], was[23]]
}

/// Write election parameters.
///
/// Writes an `awdl_frame_parser::tlvs::AWDLTLV::ElectionParameters`.
#[verifier::external_body]
pub(crate) fn write_election(buffer: &mut [u8], at: usize, parameters: &ElectionParameters) -> (written:
    usize)
    requires
        at + 24 <= old(buffer)@.len(),
    ensures
        written == 24,
        final(buffer)@ == overwrite(
            old(buffer)@,
            at as int,
            election_tlv(*parameters, old(buffer)@.subrange(at as int, at + 24)),
        ),
{
    let tlv = ElectionParametersTLV {
        flags: parameters.flags,
        id: parameters.id,
        distance_to_master: parameters.distance_to_master,
        master_address: parameters.master_address.into(),
        master_metric: parameters.master_metric,
        self_metric: parameters.self_metric,
    };
    let tlv = AWDLTLV::<Empty<ParserAddress>, Empty<AWDLStr>>::ElectionParameters(tlv);
    buffer.pwrite(tlv, at).unwrap()
}

/// Election parameters of the second version as a field, where `was` stood before. Reserved bytes
/// are left as they were.
pub open spec fn election_v2_tlv(parameters: ElectionParametersV2, was: Seq<u8>) -> Seq<u8> {
    seq![TLV_ELECTION_V2, 40, 0] + parameters.master_address@ + parameters.sync_address@ + le_bytes(
        parameters.master_counter as nat,
        4,
    ) + le_bytes(parameters.distance_to_master as nat, 4) + le_bytes(
        parameters.master_metric as nat,
        4,
    ) + le_bytes(parameters.self_metric as nat, 4) + le_bytes(parameters.election_id as nat, 4)
        + was.subrange(35, 39) + le_bytes(parameters.self_counter as nat, 4)
}

/// Write election parameters of the second version.
///
/// Writes an `awdl_frame_parser::tlvs::AWDLTLV::ElectionParametersV2`.
#[verifier::external_body]
pub(crate) fn write_election_v2(
    buffer: &mut [u8],
    at: usize,
    parameters: &ElectionParametersV2,
) -> (written: usize)
    requires
        at + 43 <= old(buffer)@.len(),
    ensures
        written == 43,
        final(buffer)@ == overwrite(
            old(buffer)@,
            at as int,
            election_v2_tlv(*parameters, old(buffer)@.subrange(at as int, at + 43)),
        ),
{
    let tlv = ElectionParametersV2TLV {
        master_address: parameters.master_address.into(),
        sync_address: parameters.sync_address.into(),
        master_counter: parameters.master_counter,
        distance_to_master: parameters.distance_to_master,
        master_metric: parameters.master_metric,
        self_metric: parameters.self_metric,
        election_id: parameters.election_id,
        self_counter: parameters.self_counter,
    };
    let tlv = AWDLTLV::<Empty<ParserAddress>, Empty<AWDLStr>>::ElectionParametersV2(tlv);
    buffer.pwrite(tlv, at).unwrap()
}

/// The state of the data path that is announced to peers.
#[derive(Clone, Copy, Debug)]
pub struct DataPathState {
    pub dualband_support: bool,
    pub airplay_solo_mode_support: bool,
    pub umi_support: bool,
    pub country_code: [char; 2],
    /// Whether channel 6 is used.
    pub channel_6: bool,
    /// Address of the network that the device is connected to, and its channel.
    pub infra_bssid: [u8; 6],
    pub infra_channel: u16,
    pub infra_address: [u8; 6],
    pub awdl_address: [u8; 6],
}

impl DataPathState {
    /// The flags: what is supported, and that all fields but those of statistics are present.
    pub open spec fn flags(&self) -> nat {
        0x9307 + (if self.dualband_support {
            0x20nat
        } else {
            0
        }) + (if self.airplay_solo_mode_support {
            0x400nat
        } else {
            0
        }) + (if self.umi_support {
            0x800nat
        } else {
            0
        })
    }
}

/// The state of the data path as a field, without unicast options and extended flags.
pub open spec fn data_path_tlv(state: DataPathState) -> Seq<u8> {
    seq![0x0cu8, 35, 0] + le_bytes(state.flags(), 2) + seq![
        (state.country_code@[0] as u32 % 256) as u8,
        (state.country_code@[1] as u32 % 256) as u8,
        0,
        if state.channel_6 {
            1
        } else {
            0
        },
        0,
    ] + state.infra_bssid@ + le_bytes(state.infra_channel as nat, 2) + state.infra_address@
        + state.awdl_address@ + seq![4u8, 0, 0, 0, 0, 0, 0, 0]
}

/// Write the state of the data path.
///
/// Writes an `awdl_frame_parser::tlvs::AWDLTLV::DataPathState` with default unicast options and
/// extended flags. The numbers without a stated byte order are written in that of a little endian
/// machine.
#[verifier::external_body]
pub(crate) fn write_data_path(buffer: &mut [u8], at: usize, state: &DataPathState) -> (written:
    usize)
    requires
        at + 38 <= old(buffer)@.len(),
    ensures
        written == 38,
        final(buffer)@ == overwrite(old(buffer)@, at as int, data_path_tlv(*state)),
{
    let DataPathState { dualband_support, airplay_solo_mode_support, umi_support, .. } = *state;
    let flags = DataPathFlags { dualband_support, airplay_solo_mode_support, umi_support,
        ..Default::default() };
    let channel_map = ChannelMap { channel_6: state.channel_6, ..Default::default() };
    let tlv = DataPathStateTLV { flags, country_code: Some(state.country_code),
        infra_bssid_channel: Some((state.infra_bssid.into(), state.infra_channel)),
        infra_address: Some(state.infra_address.into()),
        awdl_address: Some(state.awdl_address.into()),
        unicast_options: Some(UnicastOptions::default()),
        channel_map: Some(DataPathChannel::ChannelMap(channel_map)),
        extended_flags: Some(DataPathExtendedFlags::default()), ..Default::default() };
    let tlv = AWDLTLV::<Empty<ParserAddress>, Empty<AWDLStr>>::DataPathState(tlv);
    buffer.pwrite(tlv, at).unwrap()
}

/// A field of any type.
pub open spec fn raw_tlv(tlv_type: u8, value: Seq<u8>) -> Seq<u8> {
    seq![tlv_type] + le_bytes(value.len(), 2) + value
}

/// Write a field of any type.
///
/// Writes an `awdl_frame_parser::tlvs::AWDLTLV::Unknown`. The length is written in the byte order
/// of a little endian machine.
#[verifier::external_body]
pub(crate) fn write_raw(buffer: &mut [u8], at: usize, tlv_type: u8, value: &[u8]) -> (written: usize)
    requires
        value@.len() <= u16::MAX,
        at + 3 + value@.len() <= old(buffer)@.len(),
    ensures
        written == 3 + value@.len(),
        final(buffer)@ == overwrite(old(buffer)@, at as int, raw_tlv(tlv_type, value@)),
{
    let tlv = RawAWDLTLV { tlv_type, slice: value, _phantom: PhantomData };
    let tlv = AWDLTLV::<Empty<ParserAddress>, Empty<AWDLStr>>::Unknown(tlv);
    buffer.pwrite(tlv, at).unwrap()
}

/// The version of the protocol and the class of a device as a field.
pub open spec fn version_tlv(major: u8, minor: u8, device_class: u8) -> Seq<u8> {
    seq![0x15u8, 2, 0, (16 * major + minor) as u8, device_class]
}

/// Write the version of the protocol and the class of the device.
///
/// Writes an `awdl_frame_parser::tlvs::AWDLTLV::Version`.
#[verifier::external_body]
pub(crate) fn write_version(
    buffer: &mut [u8],
    at: usize,
    major: u8,
    minor: u8,
    device_class: u8,
) -> (written: usize)
    requires
        major < 16,
        minor < 16,
        at + 5 <= old(buffer)@.len(),
    ensures
        written == 5,
        final(buffer)@ == overwrite(
            old(buffer)@,
            at as int,
            version_tlv(major, minor, device_class),
        ),
{
    let version = AWDLVersion { major, minor };
    let tlv = VersionTLV { version, device_class: AWDLDeviceClass::from_bits(device_class) };
    let tlv = AWDLTLV::<Empty<ParserAddress>, Empty<AWDLStr>>::Version(tlv);
    buffer.pwrite(tlv, at).unwrap()
}

} // verus!

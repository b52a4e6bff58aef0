//! Keeping in step with peers, and announcing ourselves to them.
use vstd::prelude::*;

use crate::awdl::action_frame::{
    action_header, write_action_header, ActionFrame, SUBTYPE_MIF, SUBTYPE_PSF,
};
use crate::awdl::peer::{
    recovered_epoch_is_close, SynchronizationParameters, SynchronizationState,
    CHANNEL_SEQUENCE_DURATION,
};
use crate::awdl::peer_cache::{selected, CachedPeer};
use crate::awdl::state::{AwdlEvent, CommonResources, PeerEventServiceParameters};
use crate::awdl::tlv::{
    are_in_range, channel_sequence_tlv, channels, classed_channels, data_path_tlv, election_tlv,
    election_v2_tlv, first_tlv, first_value, has_tlv, is_channel_sequence, other_tlvs, raw_tlv,
    synchronization_tlv, value_length, version_tlv, write_channel_sequence, write_data_path,
    write_election, write_election_v2, write_raw, write_synchronization, write_version,
    DataPathState, ElectionParametersV2, TLV_CHANNEL_SEQUENCE, TLV_ELECTION, TLV_ELECTION_V2,
    TLV_SYNCHRONIZATION,
};
use crate::awdl::{APPLE_OUI, AWDL_BSSID};
use crate::bytes::{
    le_bytes, le_value, lemma_le_bytes_length, lemma_le_round_trip, overwrite, pow256, write_bytes,
};
use crate::mac::{BROADCAST, ZERO};

use crate::radio::{TxMacParameters, TxPhyRate, TxPlcpParameters};

verus! {

/// The length of the action frames that we send.
pub const ACTION_FRAME_LENGTH: usize = 293;

/// How far apart periodic synchronization frames are, in microseconds.
pub const PSF_INTERVAL: u64 = 112_640;

/// When stale peers are looked for at first, in microseconds after the start of a session.
pub const FIRST_STALE_PEER_CHECK: u64 = 1_000_000;

/// The HT capabilities that are announced. They keep peers from transmitting at MCS indices above
/// 3, which are not picked up reliably.
pub const HT_CAPABILITIES: [u8; 8] = [0x00, 0x00, 0xce, 0x11, 0x1b, 0x0f, 0x00, 0x00];

/// The state of the data path that is announced.
pub open spec fn announced_data_path(address: [u8; 6], country_code: [char; 2]) -> DataPathState {
    DataPathState {
        dualband_support: true,
        airplay_solo_mode_support: true,
        umi_support: true,
        country_code,
        channel_6: true,
        infra_bssid: ZERO,
        infra_channel: 0,
        infra_address: address,
        awdl_address: address,
    }
}

/// The fields of the action frames that we send, where `was` stood before.
pub open spec fn announced_tlvs(
    resources: CommonResources,
    address: [u8; 6],
    now: u64,
    was: Seq<u8>,
) -> Seq<u8> {
    synchronization_tlv(
        resources.sync_state.parameters(resources.election_state.root_peer, now as int),
        was.subrange(0, 76),
    ) + election_tlv(resources.election_state.tlv_v1(), was.subrange(76, 100))
        + channel_sequence_tlv(
        4,
        resources.sync_state.channel_sequence@,
        0x51,
        was.subrange(100, 144),
    ) + election_v2_tlv(resources.election_state.tlv_v2(), was.subrange(144, 187)) + data_path_tlv(
        announced_data_path(address, resources.dynamic_session_parameters.country_code),
    ) + raw_tlv(6, Seq::new(9, |i: int| 0u8)) + raw_tlv(7, HT_CAPABILITIES@) + version_tlv(3, 4, 1)
}

/// An action frame that we send, where `was` stood before.
pub open spec fn action_frame(
    resources: CommonResources,
    address: [u8; 6],
    subtype: u8,
    mac_time: u64,
    now: u64,
    was: Seq<u8>,
) -> Seq<u8> {
    action_header(BROADCAST@, address@, AWDL_BSSID@, APPLE_OUI@, subtype, mac_time, was)
        + announced_tlvs(resources, address, now, was.subrange(40, 293))
}

/// The lengths of fields.
pub proof fn lemma_tlv_lengths(
    resources: CommonResources,
    address: [u8; 6],
    subtype: u8,
    mac_time: u64,
    now: u64,
    was: Seq<u8>,
)
    requires
        was.len() >= 293,
    ensures
        action_header(BROADCAST@, address@, AWDL_BSSID@, APPLE_OUI@, subtype, mac_time, was).len()
            == 40,
        synchronization_tlv(
            resources.sync_state.parameters(resources.election_state.root_peer, now as int),
            was.subrange(40, 116),
        ).len() == 76,
        election_tlv(resources.election_state.tlv_v1(), was.subrange(116, 140)).len() == 24,
        channel_sequence_tlv(
            4,
            resources.sync_state.channel_sequence@,
            0x51,
            was.subrange(140, 184),
        ).len() == 44,
        election_v2_tlv(resources.election_state.tlv_v2(), was.subrange(184, 227)).len() == 43,
        data_path_tlv(
            announced_data_path(address, resources.dynamic_session_parameters.country_code),
        ).len() == 38,
        raw_tlv(6, Seq::new(9, |i: int| 0u8)).len() == 12,
        raw_tlv(7, HT_CAPABILITIES@).len() == 11,
        version_tlv(3, 4, 1).len() == 5,
{
    broadcast use lemma_le_bytes_length;

}

/// Bytes that are written behind others add to them.
proof fn lemma_append(buffer: Seq<u8>, written: Seq<u8>, next: Seq<u8>)
    requires
        written.len() + next.len() <= buffer.len(),
    ensures
        overwrite(overwrite(buffer, 0, written), written.len() as int, next) == overwrite(
            buffer,
            0,
            written + next,
        ),
        forall|from: int, to: int|
            written.len() <= from <= to <= buffer.len() ==> #[trigger] overwrite(
                buffer,
                0,
                written,
            ).subrange(from, to) == buffer.subrange(from, to),
{
    assert(overwrite(overwrite(buffer, 0, written), written.len() as int, next) =~= overwrite(
        buffer,
        0,
        written + next,
    ));
    assert forall|from: int, to: int|
        written.len() <= from <= to <= buffer.len() implies #[trigger] overwrite(
        buffer,
        0,
        written,
    ).subrange(from, to) == buffer.subrange(from, to) by {
        assert(overwrite(buffer, 0, written).subrange(from, to) =~= buffer.subrange(from, to));
    }
}

/// Serialize an action frame with the specified address and subtype, at `mac_time` on the clock of
/// the radio and `now` on ours.
///
/// Currently PSF and MIF are exactly the same.
pub fn serialize_action_frame(
    resources: &CommonResources,
    address: [u8; 6],
    subtype: u8,
    mac_time: u64,
    now: u64,
    buffer: &mut [u8],
) -> (written: usize)
    requires
        resources.wf(),
        old(buffer)@.len() >= ACTION_FRAME_LENGTH,
    ensures
        written == ACTION_FRAME_LENGTH,
        final(buffer)@ == overwrite(
            old(buffer)@,
            0,
            action_frame(*resources, address, subtype, mac_time, now, old(buffer)@),
        ),
{
    let ghost was = buffer@;
    proof {
        lemma_tlv_lengths(*resources, address, subtype, mac_time, now, was);
    }
    let ghost mut frame = action_header(
        BROADCAST@,
        address@,
        AWDL_BSSID@,
        APPLE_OUI@,
        subtype,
        mac_time,
        was,
    );
    let at: usize = write_action_header(
        buffer,
        BROADCAST,
        address,
        AWDL_BSSID,
        APPLE_OUI,
        subtype,
        mac_time,
    );
    let parameters = resources.sync_state.generate_tlv_at(resources.election_state.root_peer, now);
    proof {
        let next = synchronization_tlv(parameters, was.subrange(40, 116));
        lemma_append(was, frame, next);
        frame = frame + next;
    }
    let at: usize = at + write_synchronization(buffer, at, &parameters);
    let parameters = resources.election_state.generate_tlv_v1();
    proof {
        let next = election_tlv(parameters, was.subrange(116, 140));
        lemma_append(was, frame, next);
        frame = frame + next;
    }
    let at: usize = at + write_election(buffer, at, &parameters);
    proof {
        let next = channel_sequence_tlv(
            4,
            resources.sync_state.channel_sequence@,
            0x51,
            was.subrange(140, 184),
        );
        lemma_append(was, frame, next);
        frame = frame + next;
    }
    let at: usize = at + write_channel_sequence(
        buffer,
        at,
        4,
        resources.sync_state.channel_sequence,
        0x51,
    );
    let parameters = resources.election_state.generate_tlv_v2().unwrap();
    proof {
        let next = election_v2_tlv(parameters, was.subrange(184, 227));
        lemma_append(was, frame, next);
        frame = frame + next;
    }
    let at: usize = at + write_election_v2(buffer, at, &parameters);
    let state = DataPathState {
        dualband_support: true,
        airplay_solo_mode_support: true,
        umi_support: true,
        country_code: resources.dynamic_session_parameters.country_code,
        channel_6: true,
        infra_bssid: ZERO,
        infra_channel: 0,
        infra_address: address,
        awdl_address: address,
    };
    proof {
        lemma_append(was, frame, data_path_tlv(state));
        frame = frame + data_path_tlv(state);
    }
    let at: usize = at + write_data_path(buffer, at, &state);
    let service_parameters = [0u8; 9];
    proof {
        assert(service_parameters@ =~= Seq::new(9, |i: int| 0u8));
        lemma_append(was, frame, raw_tlv(6, service_parameters@));
        frame = frame + raw_tlv(6, service_parameters@);
    }
    let at: usize = at + write_raw(buffer, at, 6, &service_parameters);
    proof {
        lemma_append(was, frame, raw_tlv(7, HT_CAPABILITIES@));
        frame = frame + raw_tlv(7, HT_CAPABILITIES@);
    }
    let at: usize = at + write_raw(buffer, at, 7, &HT_CAPABILITIES);
    proof {
        lemma_append(was, frame, version_tlv(3, 4, 1));
        frame = frame + version_tlv(3, 4, 1);
        let fields = was.subrange(40, 293);
        assert(fields.subrange(0, 76) =~= was.subrange(40, 116));
        assert(fields.subrange(76, 100) =~= was.subrange(116, 140));
        assert(fields.subrange(100, 144) =~= was.subrange(140, 184));
        assert(fields.subrange(144, 187) =~= was.subrange(184, 227));
        assert(frame =~= action_frame(*resources, address, subtype, mac_time, now, was));
    }
    at + write_version(buffer, at, 3, 4, 1)
}

/// How action frames are sent: with 12 Mbit/s, without waiting for an acknowledgement, and with a
/// sequence number from the driver.
pub fn action_frame_parameters() -> (parameters: (TxPlcpParameters, TxMacParameters))
    ensures
        parameters.0 == (TxPlcpParameters { rate: TxPhyRate::Ofdm(12) }),
        parameters.1 == (TxMacParameters {
            key_slot_index: None,
            wait_for_ack: false,
            override_seq_num: true,
        }),
{
    (
        TxPlcpParameters { rate: TxPhyRate::Ofdm(12) },
        TxMacParameters { key_slot_index: None, wait_for_ack: false, override_seq_num: true },
    )
}

/// Put the time at which an action frame is handed to the PHY into it, cut to 32 bits.
pub fn stamp_phy_tx_time(buffer: &mut [u8], mac_time: u64)
    requires
        old(buffer)@.len() >= 36,
    ensures
        final(buffer)@ == overwrite(
            old(buffer)@,
            32,
            le_bytes(mac_time as nat % 0x1_0000_0000, 4),
        ),
{
    let time: u64 = mac_time % 0x1_0000_0000;
    let bytes = [
        (time % 256) as u8,
        (time / 256 % 256) as u8,
        (time / 65536 % 256) as u8,
        (time / 16777216) as u8,
    ];
    proof {
        reveal_with_fuel(le_bytes, 5);
        assert(bytes@ =~= le_bytes(time as nat, 4));
    }
    write_bytes(buffer, 32, &bytes);
}

/// Get the timestamp for the next MIF transmission.
pub fn mif_target_tx_time(resources: &CommonResources, now: u64) -> (timestamp: u64)
    requires
        now <= u64::MAX - 2 * CHANNEL_SEQUENCE_DURATION,
    ensures
        timestamp == resources.sync_state.mif_time(now as int),
{
    resources.sync_state.mif_transmition_time_at(now)
}

/// What the session waits for.
#[derive(Clone, Copy, Debug)]
pub enum ManagementEvent {
    /// Another interface asks to leave the channel.
    OffChannelRequest,
    /// It is time to look for stale peers.
    StalePeerTick,
    /// A PSF is due.
    PsfTick,
    /// A MIF is due.
    MifDeadline,
}

/// What the session does then.
pub enum ManagementAction {
    /// Reject the request.
    RejectOffChannelRequest,
    /// Raise the events, in order, and look for stale peers again at this interval, in
    /// microseconds.
    RaiseEvents(Vec<AwdlEvent>, u64),
    /// Send an action frame of this subtype.
    SendActionFrame(u8),
}

/// What is told about a peer that went stale.
pub open spec fn stale_event(cached: CachedPeer) -> AwdlEvent {
    AwdlEvent::PeerWentStale(
        PeerEventServiceParameters {
            address: cached.address,
            airdrop_port: cached.peer.airdrop_port,
            airplay_port: cached.peer.airplay_port,
        },
    )
}

/// What an event leads to during a session.
pub open spec fn event_handled(
    before: CommonResources,
    after: CommonResources,
    our_address: [u8; 6],
    event: ManagementEvent,
    now: u64,
    action: ManagementAction,
) -> bool {
    match event {
        ManagementEvent::OffChannelRequest => {
            &&& action is RejectOffChannelRequest
            &&& after == before
        },
        ManagementEvent::StalePeerTick => {
            let timeout = before.dynamic_session_parameters.stale_peer_timeout;
            let peers = before.peer_cache.peers@;
            let stale = selected(peers, peers.len() as int, true, timeout, now);
            &&& action matches ManagementAction::RaiseEvents(events, interval)
            &&& interval == timeout
            &&& events@ == Seq::new(stale.len(), |i: int| stale_event(stale[i]))
            &&& exists|purged: CommonResources|
                {
                    &&& purged.peer_cache.peers@ == selected(
                        peers,
                        peers.len() as int,
                        false,
                        timeout,
                        now,
                    )
                    &&& purged == (CommonResources {
                        peer_cache: purged.peer_cache,
                        ..before
                    })
                    &&& after == #[trigger] purged.elected(our_address)
                }
        },
        ManagementEvent::PsfTick => {
            &&& action == ManagementAction::SendActionFrame(SUBTYPE_PSF)
            &&& after == before
        },
        ManagementEvent::MifDeadline => {
            &&& action == ManagementAction::SendActionFrame(SUBTYPE_MIF)
            &&& after == before
        },
    }
}

/// Handle what happened during a session.
///
/// Stale peers are purged, with the timeout that is set now, and a master is elected among those
/// that are left.
pub fn handle_event(
    resources: &mut CommonResources,
    our_address: &[u8; 6],
    event: ManagementEvent,
    now: u64,
) -> (action: ManagementAction)
    requires
        old(resources).wf(),
    ensures
        final(resources).wf(),
        event_handled(*old(resources), *final(resources), *our_address, event, now, action),
{
    match event {
        ManagementEvent::OffChannelRequest => ManagementAction::RejectOffChannelRequest,
        ManagementEvent::StalePeerTick => {
            let timeout: u64 = resources.dynamic_session_parameters.stale_peer_timeout;
            let stale = resources.peer_cache.purge_stale_peers(timeout, now);
            let mut events: Vec<AwdlEvent> = Vec::new();
            let mut i: usize = 0;
            while i < stale.len()
                invariant
                    i <= stale@.len(),
                    events@ == Seq::new(i as nat, |j: int| stale_event(stale@[j])),
                decreases stale@.len() - i,
            {
                let cached = stale[i];
                events.push(
                    AwdlEvent::PeerWentStale(
                        PeerEventServiceParameters {
                            address: cached.address,
                            airdrop_port: cached.peer.airdrop_port,
                            airplay_port: cached.peer.airplay_port,
                        },
                    ),
                );
                i += 1;
                assert(events@ =~= Seq::new(i as nat, |j: int| stale_event(stale@[j])));
            }
            let ghost purged = *resources;
            resources.elect_master(our_address);
            assert(*resources == purged.elected(*our_address));
            ManagementAction::RaiseEvents(events, timeout)
        },
        ManagementEvent::PsfTick => ManagementAction::SendActionFrame(SUBTYPE_PSF),
        ManagementEvent::MifDeadline => ManagementAction::SendActionFrame(SUBTYPE_MIF),
    }
}

/// A field in front of others is the first field.
proof fn lemma_first_field(tlv: Seq<u8>, others: Seq<u8>)
    requires
        tlv.len() >= 3,
        tlv.len() == 3 + tlv[1],
        tlv[2] == 0,
    ensures
        has_tlv(tlv + others),
        first_value(tlv + others) == tlv.subrange(3, tlv.len() as int),
        other_tlvs(tlv + others) == others,
        (tlv + others)[0] == tlv[0],
{
    let tlvs = tlv + others;
    let length = tlvs.subrange(1, 3);
    reveal_with_fuel(le_value, 3);
    assert(length.drop_first().drop_first() =~= Seq::<u8>::empty());
    assert(length.drop_first().first() == length[1]);
    assert(value_length(tlvs) == tlv[1]);
    assert(first_value(tlvs) =~= tlv.subrange(3, tlv.len() as int));
    assert(other_tlvs(tlvs) =~= others);
}

/// A number of 32 bits can be recovered from its bytes.
proof fn lemma_number_round_trip(value: u32)
    ensures
        le_value(le_bytes(value as nat, 4)) == value,
{
    reveal_with_fuel(pow256, 5);
    lemma_le_round_trip(value as nat, 4);
}

/// A number of 16 bits can be recovered from its bytes.
proof fn lemma_short_round_trip(value: u16)
    ensures
        le_value(le_bytes(value as nat, 2)) == value,
{
    reveal_with_fuel(pow256, 3);
    lemma_le_round_trip(value as nat, 2);
}

/// The election parameters can be recovered from their field.
proof fn lemma_election_v2_value(parameters: ElectionParametersV2, was: Seq<u8>)
    requires
        was.len() == 43,
    ensures
        ({
            let tlv = election_v2_tlv(parameters, was);
            &&& tlv.len() == 43
            &&& tlv[0] == TLV_ELECTION_V2
            &&& tlv[1] == 40
            &&& tlv[2] == 0
            &&& parameters.stand_in(tlv.subrange(3, 43))
        }),
{
    broadcast use lemma_le_bytes_length;

    let p = parameters;
    let value = election_v2_tlv(p, was).subrange(3, 43);
    assert(value.subrange(0, 6) =~= p.master_address@);
    assert(value.subrange(6, 12) =~= p.sync_address@);
    assert(value.subrange(12, 16) =~= le_bytes(p.master_counter as nat, 4));
    assert(value.subrange(16, 20) =~= le_bytes(p.distance_to_master as nat, 4));
    assert(value.subrange(20, 24) =~= le_bytes(p.master_metric as nat, 4));
    assert(value.subrange(24, 28) =~= le_bytes(p.self_metric as nat, 4));
    assert(value.subrange(28, 32) =~= le_bytes(p.election_id as nat, 4));
    assert(value.subrange(36, 40) =~= le_bytes(p.self_counter as nat, 4));
    lemma_number_round_trip(p.master_counter);
    lemma_number_round_trip(p.distance_to_master);
    lemma_number_round_trip(p.master_metric);
    lemma_number_round_trip(p.self_metric);
    lemma_number_round_trip(p.election_id);
    lemma_number_round_trip(p.self_counter);
}

/// The channels can be recovered from the field of a channel sequence.
proof fn lemma_channel_sequence_value(step_count: u8, sequence: [u8; 16], class: u8, was: Seq<u8>)
    requires
        was.len() == 44,
        step_count >= 1,
    ensures
        ({
            let tlv = channel_sequence_tlv(step_count, sequence@, class, was);
            &&& tlv.len() == 44
            &&& tlv[0] == TLV_CHANNEL_SEQUENCE
            &&& tlv[1] == 41
            &&& tlv[2] == 0
            &&& is_channel_sequence(tlv.subrange(3, 44))
            &&& channels(tlv.subrange(3, 44)) == sequence@
        }),
{
    let tlv = channel_sequence_tlv(step_count, sequence@, class, was);
    let value = tlv.subrange(3, 44);
    assert(value[0] == 15 && value[1] == 3 && value[3] == (step_count - 1) as u8);
    assert forall|i: int| 0 <= i < 16 implies channels(value)[i] == sequence@[i] by {
        assert(value[6 + 2 * i] == classed_channels(sequence@, class)[2 * i]);
    }
    assert(channels(value) =~= sequence@);
}

/// The position in the availability window can be recovered from the field of the synchronization
/// parameters.
proof fn lemma_synchronization_value(parameters: SynchronizationParameters, was: Seq<u8>)
    requires
        was.len() == 76,
        parameters.step_count >= 1,
    ensures
        ({
            let tlv = synchronization_tlv(parameters, was);
            let value = tlv.subrange(3, 76);
            &&& tlv.len() == 76
            &&& tlv[0] == TLV_SYNCHRONIZATION
            &&& tlv[1] == 73
            &&& tlv[2] == 0
            &&& is_channel_sequence(value.subrange(33, 73))
            &&& le_value(value.subrange(5, 7)) == parameters.aw_period
            &&& le_value(value.subrange(15, 17)) == parameters.remaining_aw_length
            &&& le_value(value.subrange(29, 31)) == parameters.aw_seq_number
        }),
{
    broadcast use lemma_le_bytes_length;

    let p = parameters;
    let tlv = synchronization_tlv(p, was);
    let value = tlv.subrange(3, 76);
    assert(value.subrange(5, 7) =~= le_bytes(p.aw_period as nat, 2));
    assert(value.subrange(15, 17) =~= le_bytes(p.remaining_aw_length as nat, 2));
    assert(value.subrange(29, 31) =~= le_bytes(p.aw_seq_number as nat, 2));
    lemma_short_round_trip(p.aw_period);
    lemma_short_round_trip(p.remaining_aw_length);
    lemma_short_round_trip(p.aw_seq_number);
    let sequence = value.subrange(33, 73);
    assert(sequence[0] == 15 && sequence[1] == 1 && sequence[3] == (p.step_count - 1) as u8);
}

/// Fields that stand in a row are found by their type.
proof fn lemma_fields_in_a_row(
    synchronization: Seq<u8>,
    first_version: Seq<u8>,
    sequence: Seq<u8>,
    second_version: Seq<u8>,
    others: Seq<u8>,
)
    requires
        synchronization.len() == 76,
        synchronization[0] == TLV_SYNCHRONIZATION,
        synchronization[1] == 73,
        synchronization[2] == 0,
        is_channel_sequence(synchronization.subrange(3, 76).subrange(33, 73)),
        first_version.len() == 24,
        first_version[0] == TLV_ELECTION,
        first_version[1] == 21,
        first_version[2] == 0,
        sequence.len() == 44,
        sequence[0] == TLV_CHANNEL_SEQUENCE,
        sequence[1] == 41,
        sequence[2] == 0,
        is_channel_sequence(sequence.subrange(3, 44)),
        second_version.len() == 43,
        second_version[0] == TLV_ELECTION_V2,
        second_version[1] == 40,
        second_version[2] == 0,
    ensures
        ({
            let tlvs = synchronization + (first_version + (sequence + (second_version + others)));
            &&& first_tlv(tlvs, TLV_SYNCHRONIZATION) == Some(synchronization.subrange(3, 76))
            &&& first_tlv(tlvs, TLV_CHANNEL_SEQUENCE) == Some(sequence.subrange(3, 44))
            &&& first_tlv(tlvs, TLV_ELECTION_V2) == Some(second_version.subrange(3, 43))
            &&& are_in_range(tlvs, TLV_SYNCHRONIZATION, false)
            &&& are_in_range(tlvs, TLV_CHANNEL_SEQUENCE, false)
        }),
{
    let from_fourth = second_version + others;
    let from_third = sequence + from_fourth;
    let from_second = first_version + from_third;
    lemma_first_field(synchronization, from_second);
    lemma_first_field(first_version, from_third);
    lemma_first_field(sequence, from_fourth);
    lemma_first_field(second_version, others);
    reveal_with_fuel(first_tlv, 5);
    reveal_with_fuel(are_in_range, 5);
    let value = synchronization.subrange(3, 76);
    assert(value.subrange(33, value.len() as int) =~= value.subrange(33, 73));
    assert(value.subrange(33, 73)[0] == value[33]);
}

/// How sequences are put together makes no difference.
proof fn lemma_concatenation(
    a: Seq<u8>,
    b: Seq<u8>,
    c: Seq<u8>,
    d: Seq<u8>,
    e: Seq<u8>,
    f: Seq<u8>,
    g: Seq<u8>,
    h: Seq<u8>,
)
    ensures
        a + b + c + d + e + f + g + h == a + (b + (c + (d + (e + f + g + h)))),
{
    assert(a + b + c + d + e + f + g + h =~= a + (b + (c + (d + (e + f + g + h)))));
}

/// Peers understand what we announce. They recover our election state and our channel sequence,
/// and our TSF epoch with an error of less than one time unit, from a frame that is received when
/// it is made. That is so as long as the sequence number of the availability window tells the time
/// since the epoch.
pub proof fn announcement_is_understood(
    resources: CommonResources,
    address: [u8; 6],
    now: u64,
    was: Seq<u8>,
    received: ActionFrame,
    told: SynchronizationState,
)
    requires
        resources.wf(),
        was.len() == 253,
        received.tlvs@ == announced_tlvs(resources, address, now, was),
        received.phy_tx_time == received.target_tx_time,
        told.is_told_by(received, now),
        now < 0x4000_0000_0000_0000,
        resources.sync_state.tsf_epoch_in_us <= now < resources.sync_state.tsf_epoch_in_us + 65536
            * 16384,
    ensures
        received.is_readable(),
        received.tells_synchronization(),
        received.tells_election(),
        resources.election_state.is_told_by(received),
        told.channel_sequence == resources.sync_state.channel_sequence,
        resources.sync_state.tsf_epoch_in_us <= told.tsf_epoch_in_us
            < resources.sync_state.tsf_epoch_in_us + 1024,
{
    let tlvs = received.tlvs@;
    let election = resources.election_state;
    let parameters = resources.sync_state.parameters(election.root_peer, now as int);
    let synchronization = synchronization_tlv(parameters, was.subrange(0, 76));
    let first_version = election_tlv(election.tlv_v1(), was.subrange(76, 100));
    let sequence = channel_sequence_tlv(
        4,
        resources.sync_state.channel_sequence@,
        0x51,
        was.subrange(100, 144),
    );
    let second_version = election_v2_tlv(election.tlv_v2(), was.subrange(144, 187));
    let others = data_path_tlv(
        announced_data_path(address, resources.dynamic_session_parameters.country_code),
    ) + raw_tlv(6, Seq::new(9, |i: int| 0u8)) + raw_tlv(7, HT_CAPABILITIES@) + version_tlv(3, 4, 1);
    lemma_synchronization_value(parameters, was.subrange(0, 76));
    lemma_channel_sequence_value(
        4,
        resources.sync_state.channel_sequence,
        0x51,
        was.subrange(100, 144),
    );
    lemma_election_v2_value(election.tlv_v2(), was.subrange(144, 187));
    assert(first_version.len() == 24 && first_version[1] == 21 && first_version[2] == 0
        && first_version[0] == TLV_ELECTION) by {
        broadcast use lemma_le_bytes_length;

    }
    lemma_concatenation(
        synchronization,
        first_version,
        sequence,
        second_version,
        data_path_tlv(
            announced_data_path(address, resources.dynamic_session_parameters.country_code),
        ),
        raw_tlv(6, Seq::new(9, |i: int| 0u8)),
        raw_tlv(7, HT_CAPABILITIES@),
        version_tlv(3, 4, 1),
    );
    lemma_fields_in_a_row(synchronization, first_version, sequence, second_version, others);
    assert(told.channel_sequence =~= resources.sync_state.channel_sequence);
    recovered_epoch_is_close(resources.sync_state, election.root_peer, now as int);
}

} // verus!

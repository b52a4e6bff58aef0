//! Tests of the AWDL interface.
use awdl_frame_parser::action_frame::{AWDLActionFrameSubType, DefaultAWDLActionFrame};
use awdl_frame_parser::tlvs::data_path::{ChannelMap, DataPathChannel, DataPathStateTLV};
use awdl_frame_parser::tlvs::sync_elect::channel_sequence::ChannelSequence;
use awdl_frame_parser::tlvs::sync_elect::{
    ChannelSequenceTLV, ElectionParametersTLV, ElectionParametersV2TLV,
    SynchronizationParametersTLV,
};
use awdl_frame_parser::tlvs::version::VersionTLV;
use awdl_frame_parser::tlvs::RawAWDLTLV;
use foa::awdl::action_frame::{check_action_frame, check_services, ActionFrame};
use foa::awdl::control::AwdlControl;
use foa::awdl::peer::{
    AwdlPeer, ElectionState, OverlapSlotState, SynchronizationState, WindowPosition,
};
use foa::awdl::peer_cache::{AwdlPeerCache, CachedPeer};
use foa::awdl::runner::management::{
    action_frame_parameters, handle_event, mif_target_tx_time, serialize_action_frame,
    stamp_phy_tx_time, ManagementAction, ManagementEvent, ACTION_FRAME_LENGTH,
};
use foa::awdl::runner::rx::{
    inject_neighbor, process_action_frame, process_data_frame, process_frame,
    serialize_ethernet_frame, RxFrame,
};
use foa::awdl::runner::AwdlRunner;
use foa::awdl::state::{AwdlEvent, AwdlState, CommonResources};
use foa::awdl::tlv::{check_tlvs, TLV_CHANNEL_SEQUENCE, TLV_SERVICE_RESPONSE, TLV_SYNCHRONIZATION};
use foa::awdl::{
    hw_address_to_ipv6, ipv6_to_hw_address, new_awdl_interface, AwdlError, APPLE_OUI, AWDL_BSSID,
    PEER_CACHE_SIZE,
};
use foa::lmac::{LMacInterfaceControl, SharedLMacState};
use foa::mac::MACAddress;
use foa::radio::{RxInterface, ScanningMode, TxPhyRate};
use foa::stack::{init, FoAResources};
use ieee80211::scroll::Pread;
use smoltcp::phy::ChecksumCapabilities;
use smoltcp::wire::{
    EthernetFrame, EthernetProtocol, Icmpv6Packet, Icmpv6Repr, IpProtocol, Ipv6Packet,
    NdiscNeighborFlags, NdiscRepr,
};

const OUR: [u8; 6] = [2, 0, 0, 0, 0, 1];
const PEER: [u8; 6] = [2, 0, 0, 0, 0, 2];
const OTHER: [u8; 6] = [2, 0, 0, 0, 0, 3];
const SEQUENCE_DURATION: u64 = 1 << 20;
const SLOT: u64 = 1 << 16;

fn state(channels: [u8; 16], epoch: i64) -> SynchronizationState {
    SynchronizationState { channel_sequence: channels, tsf_epoch_in_us: epoch }
}

fn peer(metric: u32, last_frame: u64) -> AwdlPeer {
    AwdlPeer {
        synchronization_state: state([6; 16], 1234),
        election_state: ElectionState { self_metric: metric, ..ElectionState::new(PEER) },
        last_frame,
        data_rate: TxPhyRate::Ofdm(12),
        airdrop_port: None,
        airplay_port: Some(7000),
    }
}

fn tlv(tlv_type: u8, value: &[u8]) -> Vec<u8> {
    let mut bytes = vec![tlv_type];
    bytes.extend((value.len() as u16).to_le_bytes());
    bytes.extend(value);
    bytes
}

fn channel_sequence(encoding: u8, channels: &[u8]) -> Vec<u8> {
    let mut value = vec![15, encoding, 0, 3, 0xff, 0xff];
    value.extend(channels);
    value
}

fn synchronization(aw_period: u16, remaining: u16, aw_seq_number: u16) -> Vec<u8> {
    let mut value = vec![0; 33];
    value[5..7].copy_from_slice(&aw_period.to_le_bytes());
    value[15..17].copy_from_slice(&remaining.to_le_bytes());
    value[29..31].copy_from_slice(&aw_seq_number.to_le_bytes());
    value.extend(channel_sequence(0, &[6; 16]));
    value
}

fn election(metric: u32) -> Vec<u8> {
    let mut value = vec![0; 21];
    value[3] = 5;
    value[5..11].copy_from_slice(&OTHER);
    value[11..15].copy_from_slice(&700u32.to_le_bytes());
    value[15..19].copy_from_slice(&metric.to_le_bytes());
    value
}

fn election_v2() -> Vec<u8> {
    let mut value = vec![0; 40];
    value[..6].copy_from_slice(&OTHER);
    value[6..12].copy_from_slice(&PEER);
    for (at, number) in [(12, 1u32), (16, 2), (20, 3), (24, 4), (36, 6)] {
        value[at..at + 4].copy_from_slice(&number.to_le_bytes());
    }
    value
}

/// A service response for `label` in `domain`, with a service record for `port`.
fn service(domain: u16, port: u16) -> Vec<u8> {
    let mut name = vec![3];
    name.extend(b"foo");
    name.extend(domain.to_be_bytes());
    let mut value = (name.len() as u16 + 1).to_le_bytes().to_vec();
    value.extend(name);
    value.extend([0x21, 0, 0, 0, 0]);
    value.extend([0, 0, 0, 0]);
    value.extend(port.to_be_bytes());
    value.extend([0xc0, 0]);
    value
}

fn action_frame(tlvs: Vec<Vec<u8>>) -> ActionFrame {
    ActionFrame {
        subtype: 3,
        phy_tx_time: 1500,
        target_tx_time: 1000,
        tlvs: tlvs.concat(),
    }
}

fn introduction(metric: u32) -> ActionFrame {
    action_frame(vec![
        tlv(TLV_SYNCHRONIZATION, &synchronization(16, 3, 100)),
        tlv(5, &election(metric)),
        tlv(TLV_CHANNEL_SEQUENCE, &channel_sequence(0, &[44; 16])),
    ])
}

#[test]
fn addresses_round_trip_through_ipv6() {
    let address = [0x02, 0x11, 0x22, 0x33, 0x44, 0x55];
    let ipv6 = hw_address_to_ipv6(&address);
    assert_eq!(
        ipv6,
        [0xfe, 0x80, 0, 0, 0, 0, 0, 0, 0x00, 0x11, 0x22, 0xff, 0xfe, 0x33, 0x44, 0x55]
    );
    assert_eq!(ipv6_to_hw_address(&ipv6), address);
    let control = AwdlControl { channel: 6, mac_address: address };
    assert_eq!(control.own_ipv6_addr(), ipv6);
}

#[test]
fn time_since_the_epoch_tells_window_and_slot() {
    // 2 sequences, 5 slots, 2 windows, 7 TU and 9 µs.
    let elapsed = 2 * SEQUENCE_DURATION + 5 * SLOT + 2 * 16384 + 7 * 1024 + 9;
    assert_eq!(SynchronizationState::aw_seq_number(elapsed), 2 * 64 + 5 * 4 + 2);
    assert_eq!(SynchronizationState::remaining_aw_length(elapsed), 16 - 7);
    assert_eq!(SynchronizationState::remaining_slot_length(elapsed), 64 - (2 * 16 + 7));
    // All of a window, and of a slot, remains when it starts, and one TU just before it ends.
    assert_eq!(SynchronizationState::remaining_aw_length(0), 16);
    assert_eq!(SynchronizationState::remaining_slot_length(0), 64);
    assert_eq!(SynchronizationState::remaining_aw_length(16383), 1);
    assert_eq!(SynchronizationState::remaining_slot_length(65535), 1);
    assert_eq!(SynchronizationState::current_slot_index(elapsed), 5);
    assert_eq!(SynchronizationState::next_slot_index(elapsed), 6);
    assert_eq!(SynchronizationState::next_slot_index(elapsed + 10 * SLOT), 0);
    assert_eq!(SynchronizationState::aw_seq_number(65536 * 16384), 0);
    let mut channels = [6; 16];
    channels[6] = 44;
    assert_eq!(state(channels, 0).next_channel(elapsed), 44);
}

#[test]
fn epoch_may_lie_before_boot() {
    let sync_state = state([6; 16], -5000);
    assert_eq!(sync_state.elapsed_since_tsf_epoch_at(1000), 6000);
    assert_eq!(state([6; 16], 400).elapsed_since_tsf_epoch_at(1000), 600);
    // A time before the epoch wraps around.
    assert_eq!(state([6; 16], 1001).elapsed_since_tsf_epoch_at(1000), u64::MAX);
    assert_eq!(SynchronizationState::new_at(11, 77).tsf_epoch_in_us, 77);
    assert_eq!(SynchronizationState::new_at(11, 77).channel_sequence, [11; 16]);
}

#[test]
fn epoch_is_recovered_from_the_window_position() {
    let position = WindowPosition { aw_period: 16, aw_seq_number: 100, remaining_aw_length: 3 };
    let elapsed = (16 * 100 + 16 - 3) * 1024;
    assert_eq!(
        SynchronizationState::recover_tsf_epoch(&position, 500, 10_000_000),
        10_000_000 - (elapsed - 500)
    );
    assert_eq!(SynchronizationState::recover_tsf_epoch(&position, 0, 1000), 1000 - elapsed);
    let extreme = WindowPosition {
        aw_period: u16::MAX,
        aw_seq_number: u16::MAX,
        remaining_aw_length: u16::MAX,
    };
    assert_eq!(
        SynchronizationState::recover_tsf_epoch(&extreme, 0, 0),
        -1024 * 65535 * 65535
    );
    // More may be said to remain than a window lasts.
    let beyond = WindowPosition { aw_period: 0, aw_seq_number: 0, remaining_aw_length: u16::MAX };
    assert_eq!(SynchronizationState::recover_tsf_epoch(&beyond, 1, 0), 1024 * 65535 + 1);
}

#[test]
fn slots_start_in_this_sequence_or_the_next() {
    let sync_state = state([6; 16], 1000);
    let now = 1000 + 3 * SEQUENCE_DURATION + 5 * SLOT + 10;
    let start = 1000 + 3 * SEQUENCE_DURATION;
    assert_eq!(sync_state.slot_start_timestamp_at(9, 0, now), start + 9 * SLOT);
    assert_eq!(
        sync_state.slot_start_timestamp_at(5, 0, now),
        start + SEQUENCE_DURATION + 5 * SLOT
    );
    assert_eq!(sync_state.slot_start_timestamp_at(5, 10, now), start + 5 * SLOT + 10);
    // The sequence may have started before boot.
    assert_eq!(state([6; 16], -1000).slot_start_timestamp_at(1, 0, 500), SLOT - 1000);
    assert_eq!(
        state([6; 16], -1000).slot_start_timestamp_at(0, 0, 500),
        SEQUENCE_DURATION - 1000
    );
    let next = state([6; 16], 0).multicast_slot_start_timestamp().unwrap();
    assert_eq!(SynchronizationState::current_slot_index(next), 9);
    assert!(state([6; 16], 0).slot_start_timestamp(9, u64::MAX).is_none());
}

#[test]
fn overlap_is_found_in_the_nearest_common_slot() {
    let now = 2 * SEQUENCE_DURATION + 4 * SLOT;
    let ours = state([6; 16], 0);
    assert_eq!(
        ours.next_overlap_timestamp_at(&state([6; 16], 0), now),
        OverlapSlotState::CurrentlyOverlapping
    );
    assert_eq!(
        ours.next_overlap_timestamp_at(&state([44; 16], 0), now),
        OverlapSlotState::NoOverlappingSlots
    );
    let mut channels = [44; 16];
    channels[2] = 6;
    channels[9] = 6;
    assert_eq!(
        ours.next_overlap_timestamp_at(&state(channels, 0), now),
        OverlapSlotState::OverlappingAt(2 * SEQUENCE_DURATION + 9 * SLOT)
    );
    channels[9] = 44;
    assert_eq!(
        ours.next_overlap_timestamp_at(&state(channels, 0), now),
        OverlapSlotState::OverlappingAt(3 * SEQUENCE_DURATION + 2 * SLOT)
    );
    assert!(ours.next_overlap_timestamp(&state([44; 16], 0)).is_some());
}

#[test]
fn overlap_goes_by_what_both_listen_on_at_the_same_time() {
    let now = 2 * SEQUENCE_DURATION;
    let ours = state([6; 16], 0);
    let mut channels = [44; 16];
    channels[2] = 6;
    // The peer is five slots and a bit behind us.
    let epoch = 5 * SLOT + 1000;
    let peer = state(channels, epoch as i64);
    assert_eq!(
        ours.next_overlap_timestamp_at(&peer, now),
        OverlapSlotState::OverlappingAt(now + 7 * SLOT + 1000)
    );
    assert_eq!(
        peer.next_overlap_timestamp_at(&ours, now),
        OverlapSlotState::OverlappingAt(now + 7 * SLOT + 1000)
    );
    assert_eq!(
        ours.next_overlap_timestamp_at(&peer, now + 7 * SLOT + 1000),
        OverlapSlotState::CurrentlyOverlapping
    );
    assert_eq!(
        ours.next_overlap_timestamp_at(&peer, now + 8 * SLOT + 1000),
        OverlapSlotState::OverlappingAt(now + SEQUENCE_DURATION + 7 * SLOT + 1000)
    );
    // The same channels in the same slots, but never at the same time.
    let hopping = core::array::from_fn(|i| i as u8);
    assert_eq!(
        state(hopping, 0).next_overlap_timestamp_at(&state(hopping, epoch as i64), now),
        OverlapSlotState::NoOverlappingSlots
    );
}

#[test]
fn master_indication_is_due_in_the_middle_of_a_slot() {
    let sync_state = state([6; 16], 0);
    let base = 5 * SEQUENCE_DURATION;
    // At least 32 TU of the slot remain: one window into it.
    assert_eq!(sync_state.mif_transmition_time_at(base + 3 * SLOT + 100), base + 3 * SLOT + 16384);
    // Less remain: one window into the next.
    assert_eq!(
        sync_state.mif_transmition_time_at(base + 3 * SLOT + 40 * 1024),
        base + 4 * SLOT + 16384
    );
    assert!(sync_state.mif_transmition_time().is_some());
    let mut resources = CommonResources::new();
    resources.sync_state = sync_state;
    assert_eq!(mif_target_tx_time(&resources, base + 100), base + 16384);
}

#[test]
fn synchronization_parameters_tell_the_time() {
    let mut channels = [6; 16];
    channels[6] = 44;
    let parameters = state(channels, 0)
        .generate_tlv_at(OTHER, 2 * SEQUENCE_DURATION + 5 * SLOT + 2 * 16384 + 7 * 1024 + 9);
    assert_eq!(parameters.next_channel, 44);
    assert_eq!(parameters.tx_counter, 25);
    assert_eq!(parameters.remaining_aw_length, 9);
    assert_eq!(parameters.aw_seq_number, 150);
    assert_eq!(parameters.master_address, OTHER);
    assert_eq!((parameters.master_channel, parameters.presence_mode), (6, 4));
    assert_eq!((parameters.aw_period, parameters.af_period), (16, 110));
    let now = state([6; 16], 0).generate_tlv(OTHER);
    assert_eq!(now.channel_sequence, [6; 16]);
}

#[test]
fn election_goes_by_counter_then_metric() {
    let with = |metric, counter| ElectionState {
        self_metric: metric,
        self_counter: counter,
        ..ElectionState::new(PEER)
    };
    assert!(with(61, Some(1)).is_more_eligible(&with(60, Some(9))));
    assert!(!with(60, Some(9)).is_more_eligible(&with(61, Some(1))));
    assert!(with(60, Some(9)).is_more_eligible(&with(61, Some(9))));
    assert!(!with(60, Some(9)).is_more_eligible(&with(60, Some(9))));
    assert!(with(99, None).is_more_eligible(&with(1, Some(0))));
    assert!(!with(1, Some(0)).is_more_eligible(&with(99, None)));
    assert!(with(60, None).is_more_eligible(&with(61, None)));
    assert!(!with(60, None).is_more_eligible(&with(60, None)));
    assert!(!with(61, None).is_more_eligible(&with(60, None)));
}

#[test]
fn adopting_a_master_keeps_our_own_metric() {
    let mut own = ElectionState::new(OUR);
    assert!(own.is_master(&OUR));
    let master = ElectionState {
        self_metric: 700,
        self_counter: None,
        master_metric: 800,
        master_counter: None,
        sync_peer: None,
        root_peer: OTHER,
        distance_to_master: 2,
    };
    assert!(master.is_master(&OTHER));
    own.adopt_master(&PEER, &master);
    assert!(own.is_master(&PEER));
    assert_eq!((own.self_metric, own.self_counter), (60, Some(0)));
    assert_eq!((own.master_metric, own.master_counter), (800, Some(0)));
    assert_eq!((own.root_peer, own.distance_to_master), (OTHER, 3));
    let v1 = own.generate_tlv_v1();
    assert_eq!((v1.distance_to_master, v1.master_address, v1.self_metric), (3, OTHER, 60));
    let v2 = own.generate_tlv_v2().unwrap();
    assert_eq!((v2.sync_address, v2.master_address, v2.distance_to_master), (PEER, OTHER, 3));
    assert!(master.generate_tlv_v2().is_none());
    own.adopt_master(&PEER, &ElectionState { distance_to_master: u32::MAX, ..master });
    assert_eq!(own.distance_to_master, 0);
    own.set_master_to_self(OUR);
    assert!(own.is_master(&OUR));
    assert_eq!(own.distance_to_master, 0);
}

#[test]
fn peers_are_introduced_by_action_frames() {
    let frame = introduction(500);
    assert!(check_action_frame(&frame));
    let peer = AwdlPeer::new_with_action_frame(&frame, 10_000_000, 99).unwrap();
    assert_eq!(peer.synchronization_state.channel_sequence, [44; 16]);
    assert_eq!(
        peer.synchronization_state.tsf_epoch_in_us,
        10_000_000 - ((16 * 100 + 16 - 3) * 1024 - 500)
    );
    assert_eq!(peer.election_state.self_metric, 500);
    assert_eq!(peer.election_state.self_counter, None);
    assert_eq!(peer.election_state.master_metric, 700);
    assert_eq!(peer.election_state.root_peer, OTHER);
    assert_eq!(peer.election_state.distance_to_master, 5);
    assert_eq!((peer.last_frame, peer.data_rate), (99, TxPhyRate::Ofdm(12)));
    // The second version of the election parameters takes precedence.
    let mut frame = introduction(500);
    frame.tlvs.extend(tlv(0x18, &election_v2()));
    let state = ElectionState::from_af(&frame).unwrap();
    assert_eq!((state.self_metric, state.self_counter), (4, Some(6)));
    assert_eq!((state.master_metric, state.master_counter), (3, Some(1)));
    assert_eq!((state.sync_peer, state.root_peer), (Some(PEER), OTHER));
    assert_eq!(state.distance_to_master, 2);
    // Without election parameters, or without a channel sequence, there is no peer.
    let frame = action_frame(vec![
        tlv(TLV_SYNCHRONIZATION, &synchronization(16, 3, 100)),
        tlv(TLV_CHANNEL_SEQUENCE, &channel_sequence(0, &[44; 16])),
    ]);
    assert!(AwdlPeer::new_with_action_frame(&frame, 0, 0).is_none());
    let frame = action_frame(vec![
        tlv(TLV_SYNCHRONIZATION, &synchronization(16, 3, 100)),
        tlv(5, &election(1)),
    ]);
    assert!(AwdlPeer::new_with_action_frame(&frame, 0, 0).is_none());
}

#[test]
fn channel_sequences_are_read_in_each_encoding() {
    let mut legacy = Vec::new();
    let mut op_class = Vec::new();
    for i in 0..16 {
        legacy.extend([0x2b, i]);
        op_class.extend([i, 0x51]);
    }
    for (encoding, channels) in [(0, (0..16).collect::<Vec<u8>>()), (1, legacy), (3, op_class)] {
        let frame = action_frame(vec![
            // Passed over: too short, and of an unknown encoding.
            tlv(TLV_CHANNEL_SEQUENCE, &[15, 0]),
            tlv(TLV_CHANNEL_SEQUENCE, &channel_sequence(2, &[9; 32])),
            tlv(TLV_CHANNEL_SEQUENCE, &channel_sequence(encoding, &channels)),
            tlv(TLV_SYNCHRONIZATION, &synchronization(16, 0, 0)),
        ]);
        assert!(check_action_frame(&frame));
        let state = SynchronizationState::from_af(&frame, 0).unwrap();
        assert_eq!(state.channel_sequence.to_vec(), (0..16).collect::<Vec<u8>>());
    }
}

#[test]
fn frames_out_of_range_are_told_apart() {
    let mut count = channel_sequence(0, &[6; 16]);
    count[0] = 255;
    let frame = action_frame(vec![tlv(TLV_CHANNEL_SEQUENCE, &count)]);
    assert!(!check_action_frame(&frame));
    // An acceptable sequence in front of it hides it.
    let mut hidden = introduction(1);
    hidden.tlvs.extend(tlv(TLV_CHANNEL_SEQUENCE, &count));
    assert!(check_action_frame(&hidden));
    assert!(!check_tlvs(&hidden.tlvs, TLV_CHANNEL_SEQUENCE, true));
    let mut early = introduction(1);
    early.target_tx_time = 2000;
    assert!(!check_action_frame(&early));
    for value in [
        vec![0, 0],
        vec![2, 0, 0],
        vec![3, 0, 0, 0, 0x10, 0, 0, 0],
        vec![3, 0, 0, 0, 0x99],
        vec![3, 0, 0, 0, 0x0c, 0, 0, 0, 0, 0],
        vec![3, 0, 0, 0, 0x21, 0, 0, 0, 0, 0, 0, 0, 0, 0, 0, 0],
    ] {
        let frame = action_frame(vec![tlv(TLV_SERVICE_RESPONSE, &value)]);
        assert!(!check_services(&frame), "{value:?}");
    }
    for value in [vec![], vec![9], vec![9, 0, 0, 0], vec![3, 0, 0, 0], vec![3, 0, 0, 0, 0x21]] {
        let frame = action_frame(vec![tlv(TLV_SERVICE_RESPONSE, &value)]);
        assert!(check_services(&frame), "{value:?}");
    }
}

#[test]
fn services_are_discovered_once() {
    let mut known = peer(1, 0);
    known.airplay_port = None;
    let frame = action_frame(vec![
        tlv(TLV_SERVICE_RESPONSE, &service(0xc00a, 1)),
        tlv(TLV_SERVICE_RESPONSE, &service(0xc001, 7000)),
        tlv(TLV_SERVICE_RESPONSE, &service(0xc001, 7001)),
        // A pointer record is no service record.
        tlv(TLV_SERVICE_RESPONSE, &[3, 0, 0xc0, 7, 0x0c, 0, 0, 0, 0, 0xc0, 0]),
    ]);
    assert!(check_services(&frame));
    assert!(known.update(&frame, 0, 5));
    assert_eq!((known.airplay_port, known.airdrop_port), (Some(7000), None));
    assert_eq!(known.last_frame, 5);
    assert_eq!(known.synchronization_state.tsf_epoch_in_us, 1234);
    assert!(!known.update(&frame, 0, 6));
    let frame = action_frame(vec![tlv(TLV_SERVICE_RESPONSE, &service(0xc007, 8770))]);
    assert!(known.update(&frame, 0, 7));
    assert_eq!((known.airplay_port, known.airdrop_port), (Some(7000), Some(8770)));
}

#[test]
fn peer_cache_keeps_distinct_peers_and_purges_stale_ones() {
    let mut cache = AwdlPeerCache::new();
    for i in 0..PEER_CACHE_SIZE {
        assert!(cache.add([i as u8; 6], peer(60, i as u64)));
    }
    assert!(!cache.add(PEER, peer(60, 0)));
    assert_eq!(cache.find(&[3; 6]), Some(3));
    assert!(!cache.contains_key(&PEER));
    // Stale is who was not heard of for more than the timeout.
    let stale = cache.purge_stale_peers(10, 13);
    assert_eq!(stale.iter().map(|stale| stale.address[0]).collect::<Vec<_>>(), [0, 1, 2]);
    assert_eq!(cache.find(&[3; 6]), Some(0));
    assert!(cache.purge_stale_peers(10, 13).is_empty());
    assert_eq!(
        cache.get_common_slot_for_peer(&PEER, &state([6; 16], 0), 0),
        OverlapSlotState::PeerNotInCache
    );
    assert_eq!(
        cache.get_common_slot_for_peer(&[3; 6], &state([6; 16], 0), 0),
        OverlapSlotState::CurrentlyOverlapping
    );
    cache.clear();
    assert!(cache.peers.is_empty());
}

#[test]
fn the_most_eligible_peer_becomes_master() {
    let mut resources = CommonResources::new();
    resources.initialize_session_parameters_at(6, OUR, 10);
    assert!(resources.peer_cache.add(PEER, peer(500, 0)));
    assert!(resources.peer_cache.add(OTHER, peer(600, 0)));
    resources.elect_master(&OUR);
    assert!(resources.is_peer_master(&OTHER));
    assert_eq!(resources.sync_state.tsf_epoch_in_us, 1234);
    assert_eq!(resources.election_state.distance_to_master, 1);
    // Whoever follows us is not followed.
    resources.peer_cache.peers[1].peer.election_state.sync_peer = Some(OUR);
    resources.elect_master(&OUR);
    assert!(resources.is_peer_master(&PEER));
    resources.clear_peer_cache();
    resources.elect_master(&OUR);
    assert!(resources.is_peer_master(&OUR));
    assert_eq!(resources.election_state.distance_to_master, 0);
    assert_eq!(
        resources.get_common_slot_for_peer(&PEER, 0),
        OverlapSlotState::PeerNotInCache
    );
}

#[test]
fn action_frames_add_and_update_peers() {
    let mut resources = CommonResources::new();
    resources.initialize_session_parameters_at(6, OUR, 10);
    // A peer without a counter is not followed.
    let event =
        process_action_frame(&mut resources, &OUR, &OTHER, &introduction(500), 10_000_000, 20);
    assert!(matches!(event, Some(AwdlEvent::PeerDiscovered(OTHER))));
    assert!(resources.is_peer_cached(&OTHER) && resources.is_peer_master(&OUR));
    resources.clear_peer_cache();
    let mut counting = introduction(500);
    counting.tlvs.extend(tlv(0x18, &election_v2()));
    let event = process_action_frame(&mut resources, &OUR, &PEER, &counting, 10_000_000, 20);
    assert!(matches!(event, Some(AwdlEvent::PeerDiscovered(PEER))));
    assert!(resources.is_peer_cached(&PEER));
    assert!(resources.is_peer_master(&PEER));
    let epoch = resources.sync_state.tsf_epoch_in_us;
    assert_eq!(epoch, 10_000_000 - ((16 * 100 + 16 - 3) * 1024 - 500));
    // The master is followed as it drifts, and its services are reported.
    let mut frame = counting;
    frame.tlvs.extend(tlv(TLV_SERVICE_RESPONSE, &service(0xc001, 7000)));
    let event = process_action_frame(&mut resources, &OUR, &PEER, &frame, 10_000_007, 21);
    assert!(matches!(
        event,
        Some(AwdlEvent::DiscoveredServiceForPeer {
            address: PEER,
            airdrop_port: None,
            airplay_port: Some(7000),
        })
    ));
    assert_eq!(resources.sync_state.tsf_epoch_in_us, epoch + 7);
    // A frame that does not tell enough introduces nobody.
    let event =
        process_action_frame(&mut resources, &OUR, &OTHER, &action_frame(vec![]), 10_000_007, 21);
    assert!(event.is_none());
    assert!(!resources.is_peer_cached(&OTHER));
}

#[test]
fn peers_without_room_are_reported_but_not_added() {
    let mut resources = CommonResources::new();
    for i in 0..PEER_CACHE_SIZE {
        assert!(resources.peer_cache.add([i as u8; 6], peer(60, 0)));
    }
    let event = process_action_frame(&mut resources, &OUR, &PEER, &introduction(500), 0, 0);
    assert!(matches!(event, Some(AwdlEvent::PeerDiscovered(PEER))));
    assert!(!resources.is_peer_cached(&PEER));
}

#[test]
fn session_events_lead_to_actions() {
    let mut resources = CommonResources::new();
    resources.peer_cache.add(PEER, peer(500, 0));
    resources.peer_cache.add(OTHER, peer(400, 2_000_000));
    let mut handle = |event, now| handle_event(&mut resources, &OUR, event, now);
    assert!(matches!(
        handle(ManagementEvent::OffChannelRequest, 0),
        ManagementAction::RejectOffChannelRequest
    ));
    assert!(matches!(
        handle(ManagementEvent::PsfTick, 0),
        ManagementAction::SendActionFrame(0)
    ));
    assert!(matches!(
        handle(ManagementEvent::MifDeadline, 0),
        ManagementAction::SendActionFrame(3)
    ));
    let ManagementAction::RaiseEvents(events, interval) =
        handle(ManagementEvent::StalePeerTick, 3_000_001)
    else {
        panic!("events");
    };
    assert_eq!(interval, 3_000_000);
    assert_eq!(events.len(), 1);
    let AwdlEvent::PeerWentStale(parameters) = events[0] else {
        panic!("stale peer");
    };
    assert_eq!(
        (parameters.address, parameters.airdrop_port, parameters.airplay_port),
        (PEER, None, Some(7000))
    );
    assert!(resources.is_peer_master(&OTHER));
}

fn announced(address: [u8; 6]) -> (CommonResources, Vec<u8>) {
    let mut resources = CommonResources::new();
    resources.initialize_session_parameters_at(6, address, 1_000_000);
    resources.election_state.adopt_master(
        &PEER,
        &ElectionState { master_counter: Some(960), master_metric: 650, ..ElectionState::new(OTHER) },
    );
    let mut buffer = vec![0u8; 400];
    let written =
        serialize_action_frame(&resources, address, 3, 0x1_0203_0405, 5_000_000, &mut buffer);
    assert_eq!(written, ACTION_FRAME_LENGTH);
    assert!(buffer[written..].iter().all(|byte| *byte == 0));
    buffer.truncate(written);
    (resources, buffer)
}

#[test]
fn action_frames_hold_what_other_parsers_expect() {
    let (resources, mut frame) = announced(OUR);
    assert_eq!(&frame[..4], &[0xd0, 0, 0, 0]);
    assert_eq!(&frame[4..10], &[0xff; 6]);
    assert_eq!(&frame[10..16], &OUR);
    assert_eq!(&frame[16..22], &AWDL_BSSID);
    assert_eq!(&frame[22..28], &[0, 0, 127, 0x00, 0x17, 0xf2]);
    assert_eq!(&frame[36..40], &[5, 4, 3, 2]);
    stamp_phy_tx_time(&mut frame, 0x7_0203_0506);
    assert_eq!(&frame[32..36], &[6, 5, 3, 2]);
    let parsed = frame[28..].pread::<DefaultAWDLActionFrame>(0).unwrap();
    assert_eq!(parsed.subtype, AWDLActionFrameSubType::MIF);
    assert_eq!(parsed.tx_delta().as_micros(), 0x101);
    let types: Vec<u8> = parsed.tagged_data.raw_tlv_iter().map(|tlv| tlv.tlv_type).collect();
    assert_eq!(types, [4, 5, 0x12, 0x18, 0x0c, 6, 7, 0x15]);
    let raw: Vec<RawAWDLTLV<'_>> = parsed.tagged_data.raw_tlv_iter().collect();
    assert_eq!(raw[5].slice, &[0; 9]);
    assert_eq!(raw[6].slice, &[0x00, 0x00, 0xce, 0x11, 0x1b, 0x0f, 0x00, 0x00]);
    let sync: SynchronizationParametersTLV = parsed.tagged_data.get_first_tlv().unwrap();
    let expected = resources.sync_state.generate_tlv_at(OTHER, 5_000_000);
    assert_eq!(sync.next_channel, 6);
    assert_eq!(sync.tx_counter, expected.tx_counter);
    assert_eq!(sync.aw_seq_number, expected.aw_seq_number);
    assert_eq!(sync.remaining_aw_length, expected.remaining_aw_length);
    assert_eq!((sync.aw_period, sync.af_period, sync.awdl_flags), (16, 110, 0x1800));
    assert_eq!((sync.aw_ext_length, sync.aw_common_length), (16, 16));
    assert_eq!((sync.guard_time, sync.master_channel, sync.presence_mode), (0, 6, 4));
    assert_eq!(sync.master_address.0, OTHER);
    let ChannelSequence::Legacy(channels) = sync.channel_sequence.channel_sequence else {
        panic!("legacy encoding");
    };
    assert!(channels.iter().all(|(flags, channel)| *channel == 6 && flags.into_bits() == 0x2b));
    let v1: ElectionParametersTLV = parsed.tagged_data.get_first_tlv().unwrap();
    assert_eq!((v1.flags, v1.id, v1.distance_to_master), (0, 0, 1));
    assert_eq!((v1.master_metric, v1.self_metric), (650, 60));
    assert_eq!(v1.master_address.0, OTHER);
    let v2: ElectionParametersV2TLV = parsed.tagged_data.get_first_tlv().unwrap();
    assert_eq!((v2.master_address.0, v2.sync_address.0), (OTHER, PEER));
    assert_eq!((v2.master_counter, v2.self_counter, v2.election_id), (960, 0, 0));
    assert_eq!((v2.distance_to_master, v2.master_metric, v2.self_metric), (1, 650, 60));
    let sequence: ChannelSequenceTLV = parsed.tagged_data.get_first_tlv().unwrap();
    assert_eq!(sequence.step_count.get(), 4);
    assert_eq!(sequence.channel_sequence, ChannelSequence::OpClass([(6, 0x51); 16]));
    let data_path = raw[4].slice.pread::<DataPathStateTLV>(0).unwrap();
    assert_eq!(raw[4].slice.len(), 35);
    assert_eq!(&raw[4].slice[..2], &0x9f27u16.to_le_bytes());
    assert_eq!(data_path.country_code, Some(['X', '0']));
    assert_eq!(
        data_path.channel_map,
        Some(DataPathChannel::ChannelMap(ChannelMap { channel_6: true, ..Default::default() }))
    );
    assert_eq!(data_path.awdl_address.unwrap().0, OUR);
    assert_eq!(data_path.infra_address.unwrap().0, OUR);
    assert_eq!(data_path.infra_bssid_channel.map(|(bssid, channel)| (bssid.0, channel)), Some(([0; 6], 0)));
    let version: VersionTLV = parsed.tagged_data.get_first_tlv().unwrap();
    assert_eq!((version.version.major, version.version.minor), (3, 4));
    let (plcp, mac) = action_frame_parameters();
    assert_eq!(plcp.rate, TxPhyRate::Ofdm(12));
    assert!(!mac.wait_for_ack && mac.override_seq_num && mac.key_slot_index.is_none());
}

#[test]
fn reserved_bytes_of_action_frames_are_left_alone() {
    let resources = CommonResources::new();
    let mut zeroes = vec![0u8; ACTION_FRAME_LENGTH];
    let mut ones = vec![0xffu8; ACTION_FRAME_LENGTH];
    serialize_action_frame(&resources, OUR, 0, 0, 0, &mut zeroes);
    serialize_action_frame(&resources, OUR, 0, 0, 0, &mut ones);
    let reserved: Vec<usize> =
        (0..ACTION_FRAME_LENGTH).filter(|i| zeroes[*i] != ones[*i]).collect();
    assert_eq!(
        reserved,
        [
            31, // behind the subtype
            40 + 31,
            40 + 38,
            40 + 74,
            40 + 75, // in the synchronization parameters
            116 + 7,
            116 + 22,
            116 + 23, // in the election parameters
            140 + 5,
            140 + 41,
            140 + 42,
            140 + 43, // in the channel sequence
            184 + 35,
            184 + 36,
            184 + 37,
            184 + 38, // in the second version of the election parameters
        ]
    );
}

#[test]
fn peers_understand_our_action_frames() {
    let (resources, mut frame) = announced(PEER);
    stamp_phy_tx_time(&mut frame, 0x1_0203_0405);
    let RxFrame::Action(transmitter, received) = process_frame(&frame) else {
        panic!("action frame");
    };
    assert_eq!(transmitter, MACAddress(PEER));
    assert_eq!((received.subtype, received.phy_tx_time), (3, 0x0203_0405));
    assert!(check_action_frame(&received) && check_services(&received));
    let told = SynchronizationState::from_af(&received, 5_000_000).unwrap();
    let epoch = resources.sync_state.tsf_epoch_in_us;
    assert!(epoch <= told.tsf_epoch_in_us && told.tsf_epoch_in_us < epoch + 1024);
    assert_eq!(told.channel_sequence, resources.sync_state.channel_sequence);
    let election = ElectionState::from_af(&received).unwrap();
    assert_eq!(election.root_peer, resources.election_state.root_peer);
    assert_eq!(election.sync_peer, resources.election_state.sync_peer);
    assert_eq!(election.master_counter, Some(960));
}

#[test]
fn other_frames_are_ignored() {
    let (_, frame) = announced(PEER);
    for (offset, value) in [(0, 0xc0), (24, 126), (25, 1), (28, 9), (29, 0x11)] {
        let mut other = frame.clone();
        other[offset] = value;
        assert!(matches!(process_frame(&other), RxFrame::Ignored), "offset {offset}");
    }
    for length in 0..40 {
        assert!(matches!(process_frame(&frame[..length]), RxFrame::Ignored), "length {length}");
    }
}

fn data_frame() -> Vec<u8> {
    let mut frame = vec![0x08, 0, 0, 0];
    frame.extend(OUR);
    frame.extend(PEER);
    frame.extend(AWDL_BSSID);
    frame.extend([0, 0]);
    frame.extend([0xaa, 0xaa, 3]);
    frame.extend(APPLE_OUI);
    frame.extend([8, 0]);
    frame.extend([3, 4, 7, 0, 0, 0, 0x86, 0xdd]);
    frame.extend(b"payload");
    frame
}

#[test]
fn data_frames_become_ethernet_frames() {
    let frame = data_frame();
    let RxFrame::Msdu(msdu) = process_frame(&frame) else {
        panic!("MSDU");
    };
    assert_eq!(msdu.destination_address, MACAddress(OUR));
    assert_eq!(msdu.source_address, MACAddress(PEER));
    assert_eq!(msdu.ether_type, 0x86dd);
    assert_eq!(msdu.payload, b"payload");
    let mut buffer = [0x77u8; 40];
    let written = serialize_ethernet_frame(
        &mut buffer,
        msdu.source_address.0,
        msdu.destination_address.0,
        msdu.ether_type,
        &msdu.payload,
    );
    assert_eq!(written, Some(21));
    let mut expected = OUR.to_vec();
    expected.extend(PEER);
    expected.extend([0x86, 0xdd]);
    expected.extend(b"payload");
    assert_eq!(&buffer[..21], &expected);
    assert!(buffer[21..].iter().all(|byte| *byte == 0x77));
    let mut short = [0u8; 20];
    assert_eq!(serialize_ethernet_frame(&mut short, PEER, OUR, 0x86dd, b"payload"), None);
    assert_eq!(&short[..14], &expected[..14]);
    assert_eq!(&short[14..], &[0; 6]);
}

#[test]
fn data_frames_for_others_are_ignored() {
    // Protected, another organization, another header, no SNAP header.
    for (offset, value) in [(1, 0x40), (27, 1), (32, 2), (24, 0)] {
        let mut frame = data_frame();
        frame[offset] = value;
        assert!(process_data_frame(&frame).is_none(), "offset {offset}");
    }
    let frame = data_frame();
    for length in 0..40 {
        assert!(process_data_frame(&frame[..length]).is_none(), "length {length}");
    }
}

#[test]
fn injected_neighbors_pass_for_real_ones() {
    let mut resources = CommonResources::new();
    let mut buffer = [0x5fu8; 100];
    assert_eq!(inject_neighbor(&resources, &OUR, &PEER, &mut buffer), None);
    assert_eq!(buffer, [0x5f; 100]);
    resources.peer_cache.add(PEER, peer(60, 0));
    assert_eq!(inject_neighbor(&resources, &OUR, &PEER, &mut buffer), Some(86));
    assert_eq!(&buffer[86..], &[0x5f; 14]);
    let ethernet = EthernetFrame::new_checked(&buffer[..86]).unwrap();
    assert_eq!(ethernet.dst_addr().0, OUR);
    assert_eq!(ethernet.src_addr().0, PEER);
    assert_eq!(ethernet.ethertype(), EthernetProtocol::Ipv6);
    let packet = Ipv6Packet::new_checked(ethernet.payload()).unwrap();
    assert_eq!((packet.version(), packet.hop_limit(), packet.payload_len()), (6, 255, 32));
    assert_eq!(packet.next_header(), IpProtocol::Icmpv6);
    assert_eq!(packet.src_addr().octets(), hw_address_to_ipv6(&PEER));
    assert_eq!(packet.dst_addr().octets(), hw_address_to_ipv6(&OUR));
    let advertisement = Icmpv6Packet::new_checked(packet.payload()).unwrap();
    let parsed = Icmpv6Repr::parse(
        &packet.src_addr(),
        &packet.dst_addr(),
        &advertisement,
        &ChecksumCapabilities::default(),
    )
    .unwrap();
    let Icmpv6Repr::Ndisc(NdiscRepr::NeighborAdvert { flags, target_addr, lladdr }) = parsed else {
        panic!("neighbor advertisement");
    };
    assert_eq!(flags, NdiscNeighborFlags::SOLICITED);
    assert_eq!(target_addr.octets(), hw_address_to_ipv6(&PEER));
    assert_eq!(lladdr.unwrap().as_bytes(), &PEER);
    // The words of the pseudo header and the advertisement add up to a multiple of 65535.
    let mut words = buffer[22..54].to_vec();
    words.extend([0, 58, 0, 32]);
    words.extend(&buffer[54..86]);
    let sum: u32 =
        words.chunks(2).map(|word| u32::from(u16::from_be_bytes([word[0], word[1]]))).sum();
    assert_eq!(sum % 65535, 0);
}

#[test]
fn control_starts_and_stops_sessions() {
    let mut lmac = SharedLMacState::new(1);
    let interface_control = LMacInterfaceControl { interface: 1 };
    let other = LMacInterfaceControl { interface: 2 };
    let mut rx_interface = RxInterface::new();
    let mut control = AwdlControl { channel: 6, mac_address: OUR };
    let operation = control.start(&interface_control, &mut lmac).unwrap();
    let signaled = control.finish_start(operation, &mut lmac, &mut rx_interface);
    assert!(matches!(signaled, AwdlState::Active { our_address: OUR, channel: 6 }));
    assert_eq!(rx_interface.bssid_filter, Some(AWDL_BSSID));
    assert_eq!(rx_interface.receiver_address_filter, Some(OUR));
    assert_eq!(interface_control.home_channel(&lmac), Some(6));
    let signaled = control.stop(&interface_control, &mut lmac, &mut rx_interface);
    assert!(matches!(signaled, Some(AwdlState::Inactive)));
    assert_eq!((rx_interface.bssid_filter, rx_interface.receiver_address_filter), (None, None));
    assert_eq!(interface_control.home_channel(&lmac), None);
    other.lock_channel(&mut lmac, 11).unwrap();
    assert!(other.holds_channel(&lmac) && !interface_control.holds_channel(&lmac));
    // Without a session there is nothing to stop.
    rx_interface.bssid_filter = Some(PEER);
    assert!(control.stop(&interface_control, &mut lmac, &mut rx_interface).is_none());
    assert_eq!(rx_interface.bssid_filter, Some(PEER));
    assert_eq!(interface_control.home_channel(&lmac), Some(11));
    assert_eq!(
        control.start(&interface_control, &mut lmac).unwrap_err(),
        AwdlError::FailedToAcquireChannelLock
    );
    assert_eq!(
        control.randomize_mac_address([0xff, 1, 2, 3, 4, 5]),
        [0xfe, 1, 2, 3, 4, 5]
    );
    assert_eq!(control.mac_address(), [0xfe, 1, 2, 3, 4, 5]);
    control.set_mac_address(PEER);
    assert_eq!(control.mac_address(), PEER);
    let mut resources = CommonResources::new();
    control.set_peer_stale_timeout(&mut resources, 42);
    assert_eq!(resources.dynamic_session_parameters.stale_peer_timeout, 42);
    resources.peer_cache.add(PEER, peer(60, 0));
    let peers: &Vec<CachedPeer> = control.inspect_peers(&resources);
    assert_eq!(peers.len(), 1);
}

#[test]
fn runner_follows_the_signaled_state() {
    let mut runner = AwdlRunner::new();
    let mut resources = CommonResources::new();
    runner.change_state(&mut resources, AwdlState::Inactive, 1);
    assert_eq!(runner.session, None);
    runner.change_state(&mut resources, AwdlState::Active { our_address: OUR, channel: 11 }, 50);
    assert_eq!(runner.session, Some(OUR));
    assert_eq!(resources.sync_state.channel_sequence, [11; 16]);
    assert_eq!(resources.sync_state.tsf_epoch_in_us, 50);
    assert!(resources.is_peer_master(&OUR));
    resources.peer_cache.add(OTHER, peer(60, 0));
    runner.change_state(&mut resources, AwdlState::Active { our_address: PEER, channel: 6 }, 60);
    assert!(resources.peer_cache.peers.is_empty());
    assert!(resources.is_peer_master(&PEER));
    runner.change_state(&mut resources, AwdlState::Inactive, 70);
    assert_eq!(runner.session, None);
}

#[test]
fn interface_is_set_up_for_awdl() {
    let mut resources = FoAResources::new(1);
    let (mut interfaces, _) = init(&mut resources, 1);
    let (control, endpoint, dropped) =
        new_awdl_interface(&mut interfaces[2], &mut resources, [2, 0, 0, 0, 0, 0x10]);
    assert!(dropped.is_empty());
    assert_eq!((control.channel, control.mac_address), (6, [2, 0, 0, 0, 0, 0x12]));
    assert_eq!(endpoint.interface, 2);
    assert!(resources.rx_queues[2].active);
    assert_eq!(resources.rx_interfaces[2].bssid_filter, Some(AWDL_BSSID));
    assert_eq!(resources.rx_interfaces[2].scanning_mode, ScanningMode::Disabled);
}

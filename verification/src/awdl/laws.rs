//! What AWDL promises: the times, the election, and the bytes of the frames.
use vstd::prelude::*;

use crate::awdl::action_frame::{action_header, vendor_payload, ActionFrame};
use crate::awdl::{link_local_address, AWDL_CHANNEL};
use crate::awdl::peer::{
    first_port, micros_between, slot_at, slot_starts_next, wrapped, AwdlPeer, ElectionState,
    SynchronizationState, WindowPosition,
};
use crate::awdl::peer_cache::{
    lemma_selected, selected, selection_index, winner, winner_is_unbeaten, AwdlPeerCache,
    CachedPeer,
};
use crate::awdl::runner::{state_changed, AwdlRunner};
use crate::awdl::runner::management::{
    action_frame, announced_data_path, event_handled, lemma_tlv_lengths, stale_event,
    ManagementAction, ManagementEvent, FIRST_STALE_PEER_CHECK, HT_CAPABILITIES, PSF_INTERVAL,
};
use crate::awdl::runner::rx::{
    action_frame_processed, added_peer, carries_awdl_action, carries_awdl_msdu, injected_frame,
    internet_checksum, is_after_known_peer, is_after_new_peer, is_recognized,
    neighbor_advertisement, service_event, word_sum, AwdlMsdu, RxFrame,
};
use crate::awdl::state::{AwdlEvent, AwdlState, CommonResources};
use crate::awdl::tlv::{
    channel_sequence_tlv, channels, data_path_tlv, election_tlv, election_v2_tlv, first_tlv,
    raw_tlv, service_records, synchronization_tlv, version_tlv, DataPathState, ElectionParameters,
    ElectionParametersV2, TLV_CHANNEL_SEQUENCE, TLV_ELECTION, TLV_ELECTION_V2, TLV_SYNCHRONIZATION,
};
use crate::bytes::{
    be_bytes, be_value, le_bytes, le_value, lemma_be_bytes_length, lemma_be_round_trip,
    lemma_be_value_pair, lemma_le_bytes_length, overwrite, pow256,
};
use crate::frame::body_offset;
use crate::sta::data_laws::{
    aggregate_bytes, destination_bytes, has_data_bytes, header_bytes, lemma_data_bytes,
    source_bytes,
};

verus! {

/// What is announced of the time: how much remains of the window and of the slot, the number of the
/// window, and the channel of the next slot. All of it follows from the time since the TSF epoch, in
/// windows of 16 time units of 1024 microseconds, slots of four windows and sequences of 16 slots.
pub proof fn announced_times_follow_the_clock(
    state: SynchronizationState,
    master: [u8; 6],
    now: int,
    elapsed: int,
)
    requires
        elapsed == now - state.tsf_epoch_in_us,
        0 <= elapsed < 0x1_0000_0000_0000_0000,
    ensures
        ({
            let announced = state.parameters(master, now);
            &&& announced.remaining_aw_length == 16 - elapsed / 1024 % 16
            &&& announced.tx_counter == 64 - elapsed / 1024 % 64
            &&& announced.aw_seq_number == elapsed / 1024 / 16 % 65536
            &&& announced.next_channel == state.channel_sequence@[(elapsed / 1024 / 64 + 1) % 16]
            &&& announced.master_address == master
            &&& announced.master_channel == 6
            &&& announced.aw_period == 16
            &&& announced.aw_ext_length == 16
            &&& announced.aw_common_length == 16
            &&& announced.af_period == 110
            &&& announced.awdl_flags == 0x1800
            &&& announced.guard_time == 0
            &&& announced.min_ext_count == 3
            &&& announced.max_multicast_ext_count == 3
            &&& announced.max_unicast_ext_count == 3
            &&& announced.max_af_ext_count == 3
            &&& announced.presence_mode == 4
            &&& announced.ap_beacon_alignment_delta == 0
            &&& announced.step_count == 4
            &&& announced.channel_flags == 0x2b
            &&& announced.channel_sequence == state.channel_sequence
        }),
{
    assert(state.elapsed(now) == elapsed);
    lemma_time_units(elapsed);
}

/// Time units, windows and slots fit into each other.
proof fn lemma_time_units(elapsed: int)
    requires
        elapsed >= 0,
    ensures
        elapsed % 16384 / 1024 == elapsed / 1024 % 16,
        elapsed % 65536 / 1024 == elapsed / 1024 % 64,
        elapsed / 16384 == elapsed / 1024 / 16,
        elapsed / 65536 == elapsed / 1024 / 64,
{
}

/// The time since the TSF epoch is the time between two readings of one clock, also where the epoch
/// lies before boot.
pub proof fn time_since_the_epoch(state: SynchronizationState, now: int)
    requires
        0 <= now <= u64::MAX,
    ensures
        state.tsf_epoch_in_us <= now && now - state.tsf_epoch_in_us <= u64::MAX ==> state.elapsed(now)
            == now - state.tsf_epoch_in_us,
        0 <= state.elapsed(now) <= u64::MAX,
{
}

/// Where a peer says that much of a window remains, its TSF epoch was as many windows ago as it
/// counts, and what has passed of the current one; the time that the frame took is not counted.
pub proof fn epoch_of_a_peer_is_recovered(position: WindowPosition, received: int, delay: int)
    requires
        0 <= received < 0x4000_0000_0000_0000,
        0 <= delay < 0x1_0000_0000,
    ensures
        wrapped(received - (position.elapsed() - delay)) == received - 1024 * (position.aw_period
            * position.aw_seq_number + (position.aw_period - position.remaining_aw_length))
            + delay,
{
    assert(0 <= position.aw_period * position.aw_seq_number <= 65535 * 65535) by (nonlinear_arith)
        requires
            0 <= position.aw_period <= 65535,
            0 <= position.aw_seq_number <= 65535,
    ;
}

/// The next master indication is due one window into a slot: the current one if at least 32 time units
/// of it remain, else the one that follows it. It is never due in the past.
pub proof fn master_indications_are_due_in_time(state: SynchronizationState, now: int)
    requires
        0 <= now,
        now - state.tsf_epoch_in_us >= 0,
        now < 0x4000_0000_0000_0000,
    ensures
        ({
            let due = state.mif_time(now);
            let elapsed = now - state.tsf_epoch_in_us;
            let slot = if elapsed % 65536 <= 32 * 1024 + 1023 {
                elapsed / 65536 % 16
            } else {
                (elapsed / 65536 + 1) % 16
            };
            &&& now <= due < now + 1048576
            &&& (due - state.tsf_epoch_in_us) % 65536 == 16384
            &&& (due - state.tsf_epoch_in_us) / 65536 % 16 == slot
        }),
{
    let epoch = state.tsf_epoch_in_us as int;
    let elapsed = now - epoch;
    assert(state.elapsed(now) == elapsed);
    let slot = if 64 - elapsed % 65536 / 1024 < 32 {
        (elapsed / 65536 + 1) % 16
    } else {
        slot_at(elapsed)
    };
    assert((64 - elapsed % 65536 / 1024 < 32) == (elapsed % 65536 > 32 * 1024 + 1023));
    slot_starts_next(epoch, now, slot, 16384);
    let due = state.mif_time(now);
    assert(micros_between(epoch, due) == due - epoch);
}

/// Whoever adopts a master keeps its own metric and counter, and passes on what the master says of
/// the root of the tree, one step further away from it.
pub proof fn followers_pass_on_their_master(own: ElectionState, address: [u8; 6], master: ElectionState)
    requires
        master.distance_to_master < u32::MAX,
    ensures
        ({
            let state = own.following(address, master);
            &&& state.self_metric == own.self_metric
            &&& state.self_counter == own.self_counter
            &&& state.master_metric == master.master_metric
            &&& master.master_counter matches Some(counter) ==> state.master_counter == Some(
                counter,
            )
            &&& master.master_counter is None ==> state.master_counter == Some(0u32)
            &&& state.sync_peer == Some(address)
            &&& state.root_peer == master.root_peer
            &&& state.distance_to_master == master.distance_to_master + 1
        }),
        ElectionState::initial(address).self_metric == 60,
        ElectionState::initial(address).master_metric == 60,
        ElectionState::initial(address).self_counter == Some(0u32),
        ElectionState::initial(address).root_peer == address,
        ElectionState::initial(address).distance_to_master == 0,
{
}

/// The larger counter is more eligible, then the larger metric; whoever has a counter is more eligible
/// than whoever has none.
pub proof fn counters_come_before_metrics(a: ElectionState, b: ElectionState)
    ensures
        a.self_counter matches Some(x) && b.self_counter matches Some(y) && x < y ==> a.yields_to(b),
        a.self_counter == b.self_counter ==> (a.yields_to(b) <==> a.self_metric < b.self_metric),
        a.self_counter is None && b.self_counter is Some ==> a.yields_to(b) && !b.yields_to(a),
        a.self_counter matches Some(x) && b.self_counter matches Some(y) && x < y ==> !b.yields_to(
            a,
        ),
{
}

/// After an election we follow the clock and the tree of somebody who is more eligible than we are,
/// who does not follow us, and whom no other such peer beats. Where there is nobody like that, we are
/// our own master. The peers stay, and so do the channels that we listen on.
pub proof fn elections_choose_the_most_eligible(before: CommonResources, our_address: [u8; 6])
    ensures
        ({
            let after = before.elected(our_address);
            let peers = before.peer_cache.peers@;
            let own = before.election_state;
            &&& after.peer_cache == before.peer_cache
            &&& after.sync_state.channel_sequence == before.sync_state.channel_sequence
            &&& (exists|i: int|
                0 <= i < peers.len() && (#[trigger] peers[i]).peer.election_state.master()@
                    != our_address@ && own.yields_to(peers[i].peer.election_state)) ==> exists|i: int|
                {
                    &&& 0 <= i < peers.len()
                    &&& own.yields_to((#[trigger] peers[i]).peer.election_state)
                    &&& after.election_state.sync_peer == Some(peers[i].address)
                    &&& after.election_state.root_peer == peers[i].peer.election_state.root_peer
                    &&& after.sync_state.tsf_epoch_in_us
                        == peers[i].peer.synchronization_state.tsf_epoch_in_us
                    &&& forall|j: int|
                        0 <= j < peers.len() && (
                        #[trigger] peers[j]).peer.election_state.master()@ != our_address@
                            ==> !peers[i].peer.election_state.yields_to(
                            peers[j].peer.election_state,
                        )
                }
            &&& !(exists|i: int|
                0 <= i < peers.len() && (#[trigger] peers[i]).peer.election_state.master()@
                    != our_address@ && own.yields_to(peers[i].peer.election_state)) ==> {
                &&& after.election_state.master()@ == our_address@
                &&& after.sync_state.tsf_epoch_in_us == before.sync_state.tsf_epoch_in_us
            }
        }),
{
    let peers = before.peer_cache.peers@;
    let own = before.election_state;
    winner_is_unbeaten(peers, peers.len() as int, own, our_address@);
    match winner(peers, peers.len() as int, own, our_address@) {
        Some(index) => {
            assert(own.yields_to(peers[index].peer.election_state));
        },
        None => {},
    }
}

/// A peer is forgotten exactly if nothing was heard of it for longer than the timeout. Those that are
/// kept stay in order, and none is made up.
pub proof fn silent_peers_are_forgotten(
    peers: Seq<CachedPeer>,
    timeout: u64,
    now: u64,
    index: int,
)
    requires
        0 <= index < peers.len(),
    ensures
        selected(peers, peers.len() as int, false, timeout, now).contains(peers[index])
            || now - peers[index].peer.last_frame > timeout,
        selected(peers, peers.len() as int, true, timeout, now).contains(peers[index]) || now
            - peers[index].peer.last_frame <= timeout,
        forall|i: int|
            0 <= i < selected(peers, peers.len() as int, false, timeout, now).len() ==> {
                let kept = #[trigger] selected(peers, peers.len() as int, false, timeout, now)[i];
                peers.contains(kept) && now - kept.peer.last_frame <= timeout
            },
        forall|i: int|
            0 <= i < selected(peers, peers.len() as int, true, timeout, now).len() ==> {
                let stale = #[trigger] selected(peers, peers.len() as int, true, timeout, now)[i];
                peers.contains(stale) && now - stale.peer.last_frame > timeout
            },
{
    lemma_selection_contains(peers, peers.len() as int, timeout, now, index);
    lemma_selected(peers, peers.len() as int, false, timeout, now);
    lemma_selected(peers, peers.len() as int, true, timeout, now);
    assert forall|i: int|
        0 <= i < selected(peers, peers.len() as int, false, timeout, now).len() implies ({
        let kept = #[trigger] selected(peers, peers.len() as int, false, timeout, now)[i];
        peers.contains(kept) && now - kept.peer.last_frame <= timeout
    }) by {
        let source = selection_index(peers, peers.len() as int, false, timeout, now, i);
        assert(peers[source] == selected(peers, peers.len() as int, false, timeout, now)[i]);
    }
    assert forall|i: int|
        0 <= i < selected(peers, peers.len() as int, true, timeout, now).len() implies ({
        let stale = #[trigger] selected(peers, peers.len() as int, true, timeout, now)[i];
        peers.contains(stale) && now - stale.peer.last_frame > timeout
    }) by {
        let source = selection_index(peers, peers.len() as int, true, timeout, now, i);
        assert(peers[source] == selected(peers, peers.len() as int, true, timeout, now)[i]);
    }
}

/// Every peer is in one of both selections.
proof fn lemma_selection_contains(
    peers: Seq<CachedPeer>,
    count: int,
    timeout: u64,
    now: u64,
    index: int,
)
    requires
        0 <= index < count <= peers.len(),
    ensures
        peers[index].is_stale(timeout, now) ==> selected(peers, count, true, timeout, now).contains(
            peers[index],
        ),
        !peers[index].is_stale(timeout, now) ==> selected(
            peers,
            count,
            false,
            timeout,
            now,
        ).contains(peers[index]),
    decreases count,
{
    let stale = peers[index].is_stale(timeout, now);
    let chosen = selected(peers, count, stale, timeout, now);
    if index == count - 1 {
        assert(chosen.last() == peers[index]);
    } else {
        lemma_selection_contains(peers, count - 1, timeout, now, index);
        let before = selected(peers, count - 1, stale, timeout, now);
        let i = choose|i: int| 0 <= i < before.len() && before[i] == peers[index];
        assert(chosen[i] == peers[index]);
    }
}

/// What is told about a peer that was forgotten is what was known of it.
pub proof fn forgotten_peers_are_reported(cached: CachedPeer)
    ensures
        stale_event(cached) matches AwdlEvent::PeerWentStale(parameters) && {
            &&& parameters.address == cached.address
            &&& parameters.airdrop_port == cached.peer.airdrop_port
            &&& parameters.airplay_port == cached.peer.airplay_port
        },
{
}

/// A frame of a known peer changes what is known of that peer, and of no other. We keep following our
/// master, and nobody else because of a frame.
pub proof fn frames_update_their_sender(
    after: CommonResources,
    before: CommonResources,
    index: int,
    transmitter: [u8; 6],
    received: ActionFrame,
    rx_timestamp: u64,
    now: u64,
)
    requires
        before.peer_cache.is_at(index, transmitter@),
        is_after_known_peer(after, before, index, transmitter, received, rx_timestamp, now),
    ensures
        after.peer_cache.peers@.len() == before.peer_cache.peers@.len(),
        after.peer_cache.peers@[index].peer.last_frame == now,
        after.peer_cache.peers@[index].address == before.peer_cache.peers@[index].address,
        forall|i: int|
            0 <= i < before.peer_cache.peers@.len() && i != index
                ==> #[trigger] after.peer_cache.peers@[i] == before.peer_cache.peers@[i],
        after.sync_state.channel_sequence == before.sync_state.channel_sequence,
        after.election_state.self_metric == before.election_state.self_metric,
        ({
            let master = before.election_state.sync_peer matches Some(address) && address@
                == transmitter@ || before.election_state.sync_peer is None
                && before.election_state.root_peer@ == transmitter@;
            if master {
                &&& after.sync_state.tsf_epoch_in_us
                    == after.peer_cache.peers@[index].peer.synchronization_state.tsf_epoch_in_us
                &&& after.election_state.root_peer
                    == after.peer_cache.peers@[index].peer.election_state.root_peer
                &&& after.election_state.sync_peer == Some(transmitter)
            } else {
                &&& after.sync_state == before.sync_state
                &&& after.election_state == before.election_state
            }
        }),
{
}

/// A new peer is remembered behind all others, with what its frame tells, while there is room for it.
pub proof fn new_peers_are_remembered(
    after: CommonResources,
    before: CommonResources,
    our_address: [u8; 6],
    transmitter: [u8; 6],
    received: ActionFrame,
    rx_timestamp: u64,
    now: u64,
)
    requires
        is_after_new_peer(after, before, our_address, transmitter, received, rx_timestamp, now),
    ensures
        before.peer_cache.peers@.len() < 16 ==> {
            let peers = after.peer_cache.peers@;
            &&& peers.len() == before.peer_cache.peers@.len() + 1
            &&& peers.drop_last() == before.peer_cache.peers@
            &&& peers.last().address == transmitter
            &&& peers.last().peer.last_frame == now
            &&& peers.last().peer.synchronization_state.is_told_by(received, rx_timestamp)
            &&& peers.last().peer.election_state.is_told_by(received)
            &&& peers.last().peer.airdrop_port is None
            &&& peers.last().peer.airplay_port is None
        },
        before.peer_cache.peers@.len() >= 16 ==> {
            &&& after.peer_cache.peers@ == before.peer_cache.peers@
            &&& after.sync_state == before.sync_state
            &&& after.election_state == before.election_state
        },
{
    if before.peer_cache.peers@.len() < 16 {
        let peer_cache = choose|peer_cache: AwdlPeerCache|
            {
                &&& peer_cache.peers@.len() == before.peer_cache.peers@.len() + 1
                &&& peer_cache.peers@.drop_last() == before.peer_cache.peers@
                &&& peer_cache.peers@.last().address == transmitter
                &&& peer_cache.peers@.last().peer.is_introduced_by(received, rx_timestamp, now)
                &&& after == (#[trigger] added_peer(before, peer_cache)).elected(our_address)
            };
        assert(after.peer_cache == peer_cache);
    }
}

/// Ports stay as they are once they are known. One that is new is the first that the frame tells for
/// its service, and is reported with the address of the peer.
pub proof fn services_are_reported_once(
    before: AwdlPeer,
    after: AwdlPeer,
    received: ActionFrame,
    rx_timestamp: u64,
    now: u64,
    address: [u8; 6],
)
    requires
        after.is_updated_by(before, received, rx_timestamp, now),
    ensures
        before.airplay_port is Some ==> after.airplay_port == before.airplay_port,
        before.airdrop_port is Some ==> after.airdrop_port == before.airdrop_port,
        before.airplay_port is None ==> after.airplay_port == first_port(
            service_records(received.tlvs@),
            0xc001,
        ),
        before.airdrop_port is None ==> after.airdrop_port == first_port(
            service_records(received.tlvs@),
            0xc007,
        ),
        before.airplay_port is Some && before.airdrop_port is Some ==> service_event(
            before,
            after,
            address,
        ) is None,
        service_event(before, after, address) matches Some(event) ==> event == (
        AwdlEvent::DiscoveredServiceForPeer {
            address,
            airdrop_port: after.airdrop_port,
            airplay_port: after.airplay_port,
        }),
        before.airplay_port is None && after.airplay_port is Some ==> service_event(
            before,
            after,
            address,
        ) is Some,
        before.airdrop_port is None && after.airdrop_port is Some ==> service_event(
            before,
            after,
            address,
        ) is Some,
{
}

/// The port of a service is that in the first record for its domain.
pub proof fn first_port_comes_first(
    records: Seq<Option<(u16, u16)>>,
    domain: u16,
    index: int,
)
    requires
        0 <= index < records.len(),
        records[index] is Some,
        records[index]->Some_0.0 == domain,
        forall|i: int|
            0 <= i < index ==> !((#[trigger] records[i]) matches Some(record) && record.0 == domain),
    ensures
        first_port(records, domain) == Some(records[index]->Some_0.1),
    decreases index,
{
    if index > 0 {
        let rest = records.drop_first();
        assert(!(records[0] matches Some(record) && record.0 == domain));
        assert forall|i: int| 0 <= i < index - 1 implies !((#[trigger] rest[i]) matches Some(record)
            && record.0 == domain) by {
            assert(rest[i] == records[i + 1]);
        }
        first_port_comes_first(rest, domain, index - 1);
    }
}

/// The election parameters that are announced are those of our state: the root of the tree that we
/// are in, whom we synchronize to, how far away the root is, and the metrics and counters.
pub proof fn announced_election_is_ours(state: ElectionState)
    ensures
        ({
            let first = state.tlv_v1();
            &&& first.master_address == state.root_peer
            &&& first.master_metric == state.master_metric
            &&& first.self_metric == state.self_metric
            &&& first.distance_to_master == state.distance_to_master % 256
            &&& first.flags == 0
            &&& first.id == 0
        }),
        state.is_complete() <==> state.self_counter is Some && state.master_counter is Some
            && state.sync_peer is Some,
        state.is_complete() ==> {
            let second = state.tlv_v2();
            &&& second.master_address == state.root_peer
            &&& Some(second.sync_address) == state.sync_peer
            &&& Some(second.master_counter) == state.master_counter
            &&& Some(second.self_counter) == state.self_counter
            &&& second.distance_to_master == state.distance_to_master
            &&& second.master_metric == state.master_metric
            &&& second.self_metric == state.self_metric
            &&& second.election_id == 0
        },
{
}

/// What a peer says of the election is read from its frame: from the second version of the parameters
/// if there is one, else from the first, which tells no counters.
pub proof fn election_of_a_peer_is_read(
    received: ActionFrame,
    state: ElectionState,
    first: ElectionParameters,
    second: ElectionParametersV2,
)
    requires
        state.is_told_by(received),
    ensures
        first_tlv(received.tlvs@, TLV_ELECTION_V2) matches Some(value) && second.stand_in(value) ==> {
            &&& state.self_metric == second.self_metric
            &&& state.self_counter == Some(second.self_counter)
            &&& state.master_metric == second.master_metric
            &&& state.master_counter == Some(second.master_counter)
            &&& state.root_peer@ == second.master_address@
            &&& state.sync_peer matches Some(address)
            &&& address@ == second.sync_address@
            &&& state.distance_to_master == second.distance_to_master
        },
        first_tlv(received.tlvs@, TLV_ELECTION_V2) is None && (first_tlv(
            received.tlvs@,
            TLV_ELECTION,
        ) matches Some(value) && first.stand_in(value)) ==> {
            &&& state.self_metric == first.self_metric
            &&& state.self_counter is None
            &&& state.master_metric == first.master_metric
            &&& state.master_counter is None
            &&& state.root_peer@ == first.master_address@
            &&& state.sync_peer is None
            &&& state.distance_to_master == first.distance_to_master
        },
{
}

/// An action frame goes to everybody, from us, under the BSSID of AWDL, and is marked as that of the
/// vendor. Behind its times stand the synchronization parameters, the election parameters, the channel
/// sequence, the second version of the election parameters, the data path, the capabilities and the
/// version.
pub proof fn action_frames_announce_us(
    resources: CommonResources,
    address: [u8; 6],
    subtype: u8,
    mac_time: u64,
    now: u64,
    was: Seq<u8>,
)
    requires
        was.len() >= 293,
    ensures
        ({
            let frame = action_frame(resources, address, subtype, mac_time, now, was);
            &&& frame.len() == 293
            &&& frame[0] == 0xd0
            &&& frame[1] == 0
            &&& frame.subrange(4, 10) == seq![0xffu8, 0xff, 0xff, 0xff, 0xff, 0xff]
            &&& frame.subrange(10, 16) == address@
            &&& frame.subrange(16, 22) == seq![0x00u8, 0x25, 0x00, 0xff, 0x94, 0x73]
            &&& frame.subrange(24, 30) == seq![127u8, 0x00, 0x17, 0xf2, 8, 0x10]
            &&& frame[30] == subtype
            &&& frame.subrange(36, 40) == le_bytes(mac_time as nat % 0x1_0000_0000, 4)
            &&& frame.subrange(40, 116) == synchronization_tlv(
                resources.sync_state.parameters(resources.election_state.root_peer, now as int),
                was.subrange(40, 116),
            )
            &&& frame.subrange(116, 140) == election_tlv(
                resources.election_state.tlv_v1(),
                was.subrange(116, 140),
            )
            &&& frame.subrange(140, 184) == channel_sequence_tlv(
                4,
                resources.sync_state.channel_sequence@,
                0x51,
                was.subrange(140, 184),
            )
            &&& frame.subrange(184, 227) == election_v2_tlv(
                resources.election_state.tlv_v2(),
                was.subrange(184, 227),
            )
            &&& frame.subrange(227, 265) == data_path_tlv(
                DataPathState {
                    dualband_support: true,
                    airplay_solo_mode_support: true,
                    umi_support: true,
                    country_code: resources.dynamic_session_parameters.country_code,
                    channel_6: true,
                    infra_bssid: [0, 0, 0, 0, 0, 0],
                    infra_channel: 0,
                    infra_address: address,
                    awdl_address: address,
                },
            )
            &&& frame.subrange(265, 277) == seq![6u8, 9, 0, 0, 0, 0, 0, 0, 0, 0, 0, 0]
            &&& frame.subrange(277, 288) == seq![
                7u8, 8, 0, 0x00, 0x00, 0xce, 0x11, 0x1b, 0x0f, 0x00, 0x00,
            ]
            &&& frame.subrange(288, 293) == seq![0x15u8, 2, 0, 0x34, 1]
        }),
{
    broadcast use lemma_le_bytes_length;

    lemma_tlv_lengths(resources, address, 0, 0, now, was);
    lemma_tlv_lengths(resources, address, subtype, mac_time, now, was);
    let frame = action_frame(resources, address, subtype, mac_time, now, was);
    let head = action_header(
        crate::mac::BROADCAST@,
        address@,
        crate::awdl::AWDL_BSSID@,
        crate::awdl::APPLE_OUI@,
        subtype,
        mac_time,
        was,
    );
    let behind = was.subrange(40, 293);
    assert(behind.subrange(0, 76) =~= was.subrange(40, 116));
    assert(behind.subrange(76, 100) =~= was.subrange(116, 140));
    assert(behind.subrange(100, 144) =~= was.subrange(140, 184));
    assert(behind.subrange(144, 187) =~= was.subrange(184, 227));
    assert(13u8 << 4 == 0xd0) by (bit_vector);
    assert(head[0] == 0xd0 && head[1] == 0);
    assert(head.subrange(4, 10) =~= seq![0xffu8, 0xff, 0xff, 0xff, 0xff, 0xff]);
    assert(head.subrange(10, 16) =~= address@);
    assert(head.subrange(16, 22) =~= seq![0x00u8, 0x25, 0x00, 0xff, 0x94, 0x73]);
    assert(head.subrange(24, 30) =~= seq![127u8, 0x00, 0x17, 0xf2, 8, 0x10]);
    assert(head.subrange(36, 40) =~= le_bytes(mac_time as nat % 0x1_0000_0000, 4));
    assert(frame.subrange(4, 10) =~= head.subrange(4, 10));
    assert(frame.subrange(10, 16) =~= head.subrange(10, 16));
    assert(frame.subrange(16, 22) =~= head.subrange(16, 22));
    assert(frame.subrange(24, 30) =~= head.subrange(24, 30));
    assert(frame.subrange(36, 40) =~= head.subrange(36, 40));
    assert(frame[30] == head[30]);
    let synchronization = synchronization_tlv(
        resources.sync_state.parameters(resources.election_state.root_peer, now as int),
        was.subrange(40, 116),
    );
    let election = election_tlv(resources.election_state.tlv_v1(), was.subrange(116, 140));
    let sequence = channel_sequence_tlv(
        4,
        resources.sync_state.channel_sequence@,
        0x51,
        was.subrange(140, 184),
    );
    let second = election_v2_tlv(resources.election_state.tlv_v2(), was.subrange(184, 227));
    let path = announced_data_path(address, resources.dynamic_session_parameters.country_code);
    let zero = [0u8, 0, 0, 0, 0, 0];
    assert(path.infra_bssid =~= zero);
    assert(frame.subrange(40, 116) =~= synchronization);
    assert(frame.subrange(116, 140) =~= election);
    assert(frame.subrange(140, 184) =~= sequence);
    assert(frame.subrange(184, 227) =~= second);
    assert(frame.subrange(227, 265) =~= data_path_tlv(path));
    assert(frame.subrange(265, 277) =~= raw_tlv(6, Seq::new(9, |i: int| 0u8)));
    assert(frame.subrange(277, 288) =~= raw_tlv(7, HT_CAPABILITIES@));
    assert(frame.subrange(288, 293) =~= version_tlv(3, 4, 1));
    reveal_with_fuel(le_bytes, 3);
    assert(raw_tlv(6, Seq::new(9, |i: int| 0u8)) =~= seq![6u8, 9, 0, 0, 0, 0, 0, 0, 0, 0, 0, 0]);
    assert(raw_tlv(7, HT_CAPABILITIES@) =~= seq![
        7u8, 8, 0, 0x00, 0x00, 0xce, 0x11, 0x1b, 0x0f, 0x00, 0x00,
    ]);
    assert(version_tlv(3, 4, 1) =~= seq![0x15u8, 2, 0, 0x34, 1]);
}

/// A data frame without protection carries an MSDU exactly if its body starts with the SNAP header of
/// the vendor and then with the header of an AWDL data frame. The MSDU has the addresses of the frame,
/// and the protocol and payload behind those headers.
pub proof fn data_frames_carry_msdus(frame: Seq<u8>, msdu: AwdlMsdu)
    requires
        has_data_bytes(frame),
        frame[1] & 0x40 == 0,
        !aggregate_bytes(frame),
        header_bytes(frame) + 16 <= frame.len(),
        frame[header_bytes(frame) + 2] == 3,
    ensures
        ({
            let body = frame.subrange(header_bytes(frame), frame.len() as int);
            &&& carries_awdl_msdu(frame) <==> body[0] == 0xaa && body[1] == 0xaa && body[3] == 0x00
                && body[4] == 0x17 && body[5] == 0xf2 && body[8] == 3 && body[9] == 4
            &&& msdu.stands_in(frame) ==> {
                &&& msdu.destination_address@ == destination_bytes(frame)
                &&& msdu.source_address@ == source_bytes(frame)
                &&& msdu.ether_type == body[14] * 256 + body[15]
                &&& msdu.payload@ == body.subrange(16, body.len() as int)
            }
        }),
{
    lemma_data_bytes(frame);
    let body = frame.subrange(header_bytes(frame), frame.len() as int);
    assert(body_offset(frame) == header_bytes(frame));
    assert(3u8 & 3 != 0) by (bit_vector);
    let oui = body.subrange(3, 6);
    assert(oui[0] == body[3] && oui[1] == body[4] && oui[2] == body[5]);
    assert((oui == crate::awdl::APPLE_OUI@) == (oui =~= crate::awdl::APPLE_OUI@));
    let inner = body.subrange(8, body.len() as int);
    assert(inner[0] == body[8] && inner[1] == body[9]);
    lemma_be_value_pair(body.subrange(14, 16));
}

/// The link local address of a MAC address starts with `fe80::`, holds the address around `ff:fe`, and
/// differs from it in one bit.
pub proof fn link_local_addresses_hold_the_address(address: Seq<u8>)
    requires
        address.len() == 6,
    ensures
        ({
            let ipv6 = link_local_address(address);
            &&& ipv6.len() == 16
            &&& ipv6.subrange(0, 8) == seq![0xfeu8, 0x80, 0, 0, 0, 0, 0, 0]
            &&& ipv6[8] ^ address[0] == 2
            &&& ipv6[9] == address[1]
            &&& ipv6[10] == address[2]
            &&& ipv6[11] == 0xff
            &&& ipv6[12] == 0xfe
            &&& ipv6.subrange(13, 16) == address.subrange(3, 6)
        }),
{
    let ipv6 = link_local_address(address);
    let first = address[0];
    assert((first ^ 2) ^ first == 2) by (bit_vector);
    assert(ipv6.subrange(0, 8) =~= seq![0xfeu8, 0x80, 0, 0, 0, 0, 0, 0]);
    assert(ipv6.subrange(13, 16) =~= address.subrange(3, 6));
}

/// The neighbor advertisement that is made up for a peer passes for one that it sent us: it goes from
/// its addresses to ours, tells its link layer address for its IPv6 address, and its checksum is
/// right.
pub proof fn neighbors_are_injected_as_if_they_spoke(own: Seq<u8>, peer: Seq<u8>, was: Seq<u8>)
    requires
        own.len() == 6,
        peer.len() == 6,
        was.len() >= 86,
    ensures
        ({
            let frame = injected_frame(own, peer, was);
            &&& frame.len() == 86
            &&& frame.subrange(0, 6) == own
            &&& frame.subrange(6, 12) == peer
            &&& frame[12] == 0x86 && frame[13] == 0xdd
            &&& frame[18] == 0 && frame[19] == 32
            &&& frame[20] == 58
            &&& frame[21] == 255
            &&& frame.subrange(22, 38) == link_local_address(peer)
            &&& frame.subrange(38, 54) == link_local_address(own)
            &&& frame[54] == 136 && frame[55] == 0
            &&& be_value(frame.subrange(56, 58)) == internet_checksum(
                frame.subrange(22, 54) + seq![0u8, 58, 0, 32] + overwrite(
                    frame.subrange(54, 86),
                    2,
                    seq![0u8, 0],
                ),
            )
            &&& frame[58] == 0x40
            &&& frame.subrange(62, 78) == link_local_address(peer)
            &&& frame[78] == 2 && frame[79] == 1
            &&& frame.subrange(80, 86) == peer
        }),
{
    reveal_with_fuel(be_bytes, 3);
    let frame = injected_frame(own, peer, was);
    let src = link_local_address(peer);
    let dst = link_local_address(own);
    let blank = neighbor_advertisement(0, 0x40, src, peer);
    let checksum = internet_checksum(src + dst + seq![0u8, 58, 0, 32] + blank);
    let advertised = neighbor_advertisement(checksum, 0x40, src, peer);
    assert(checksum < 65536);
    assert(be_bytes(0x86dd, 2) =~= seq![0x86u8, 0xdd]);
    assert(be_bytes(32, 2) =~= seq![0u8, 32]);
    assert(be_bytes(0, 2) =~= seq![0u8, 0]);
    lemma_be_bytes_length(checksum, 2);
    assert(frame.subrange(0, 6) =~= own);
    assert(frame.subrange(6, 12) =~= peer);
    assert(frame.subrange(22, 38) =~= src);
    assert(frame.subrange(38, 54) =~= dst);
    assert(frame.subrange(54, 86) =~= advertised);
    assert(frame.subrange(56, 58) =~= be_bytes(checksum, 2));
    assert(be_value(be_bytes(checksum, 2)) == checksum) by {
        reveal_with_fuel(pow256, 3);
        lemma_be_round_trip(checksum, 2);
    }
    assert(frame.subrange(22, 54) =~= src + dst);
    assert(overwrite(advertised, 2, seq![0u8, 0]) =~= blank);
    assert(frame.subrange(62, 78) =~= src);
    assert(frame.subrange(80, 86) =~= peer);
}

/// A checksum completes the words that it is made of to a multiple of 65535.
pub proof fn checksums_complete_the_sum(bytes: Seq<u8>)
    requires
        word_sum(bytes) > 0,
    ensures
        (word_sum(bytes) + internet_checksum(bytes)) % 65535 == 0,
        internet_checksum(bytes) < 65535,
{
    let sum = word_sum(bytes) - 1;
    assert((sum + 1 + 65534 - sum % 65535) % 65535 == 0) by {
        let rounds = sum / 65535;
        assert(sum == 65535 * rounds + sum % 65535);
        assert(sum + 1 + 65534 - sum % 65535 == 65535 * (rounds + 1));
    }
}

/// What a peer tells of its clock is read from its frame: its TSF epoch follows from the window that it
/// counts, what remains of that, and the time that the frame waited before it was sent. Its channels
/// are those of its channel sequence.
pub proof fn clock_of_a_peer_is_read(
    received: ActionFrame,
    rx_timestamp: u64,
    state: SynchronizationState,
    position: WindowPosition,
)
    requires
        state.is_told_by(received, rx_timestamp),
        received.tells_synchronization(),
        received.target_tx_time <= received.phy_tx_time,
        rx_timestamp < 0x4000_0000_0000_0000,
        ({
            let value = first_tlv(received.tlvs@, TLV_SYNCHRONIZATION)->Some_0;
            &&& position.aw_period == le_value(value.subrange(5, 7))
            &&& position.remaining_aw_length == le_value(value.subrange(15, 17))
            &&& position.aw_seq_number == le_value(value.subrange(29, 31))
        }),
    ensures
        state.tsf_epoch_in_us == rx_timestamp - 1024 * (position.aw_period * position.aw_seq_number
            + (position.aw_period - position.remaining_aw_length)) + (received.phy_tx_time
            - received.target_tx_time),
        state.channel_sequence@ == channels(
            first_tlv(received.tlvs@, TLV_CHANNEL_SEQUENCE)->Some_0,
        ),
        received.tells_synchronization() <==> first_tlv(received.tlvs@, TLV_SYNCHRONIZATION) is Some
            && first_tlv(received.tlvs@, TLV_CHANNEL_SEQUENCE) is Some,
        received.tells_election() <==> first_tlv(received.tlvs@, TLV_ELECTION) is Some || first_tlv(
            received.tlvs@,
            TLV_ELECTION_V2,
        ) is Some,
{
    epoch_of_a_peer_is_recovered(
        position,
        rx_timestamp as int,
        received.phy_tx_time - received.target_tx_time,
    );
}

/// A vendor specific action frame of the vendor that holds an AWDL action frame of version 1.0 is taken
/// for one, and no other frame is.
pub proof fn action_frames_are_recognized(frame: Seq<u8>)
    requires
        frame.len() >= 40,
        frame[1] & 0x80 == 0,
    ensures
        carries_awdl_action(frame) <==> frame[0] & 0xfc == 0xd0 && frame.subrange(24, 30) == seq![
            127u8, 0x00, 0x17, 0xf2, 8, 0x10,
        ],
{
    let control = frame[0];
    assert(((control >> 2) & 3 == 0 && control >> 4 == 13) == (control & 0xfc == 0xd0))
        by (bit_vector);
    let mark = frame.subrange(24, 30);
    assert((mark =~= seq![127u8, 0x00, 0x17, 0xf2, 8, 0x10]) == (frame[24] == 127 && frame[25] == 0
        && frame[26] == 0x17 && frame[27] == 0xf2 && frame[28] == 8 && frame[29] == 0x10)) by {
        if mark =~= seq![127u8, 0x00, 0x17, 0xf2, 8, 0x10] {
            assert(mark[0] == 127 && mark[1] == 0 && mark[2] == 0x17 && mark[3] == 0xf2 && mark[4]
                == 8 && mark[5] == 0x10);
        }
    }
    let oui = frame.subrange(25, 28);
    assert((oui =~= crate::awdl::APPLE_OUI@) == (frame[25] == 0 && frame[26] == 0x17 && frame[27]
        == 0xf2)) by {
        assert(oui[0] == frame[25] && oui[1] == frame[26] && oui[2] == frame[27]);
        assert(crate::awdl::APPLE_OUI@[0] == 0 && crate::awdl::APPLE_OUI@[1] == 0x17
            && crate::awdl::APPLE_OUI@[2] == 0xf2);
        if oui =~= crate::awdl::APPLE_OUI@ {
            assert(oui[0] == crate::awdl::APPLE_OUI@[0]);
            assert(oui[1] == crate::awdl::APPLE_OUI@[1]);
            assert(oui[2] == crate::awdl::APPLE_OUI@[2]);
        }
    }
    let payload = vendor_payload(frame);
    assert(payload[0] == frame[28] && payload[1] == frame[29]);
}

/// Periodic frames follow each other after as many time units as are announced, and sessions take place
/// on the channel that is announced for the master.
pub proof fn announced_intervals_are_kept(state: SynchronizationState, master: [u8; 6], now: int)
    ensures
        PSF_INTERVAL == 1024 * state.parameters(master, now).af_period,
        FIRST_STALE_PEER_CHECK == 1_000_000,
        AWDL_CHANNEL == state.parameters(master, now).master_channel,
        AWDL_CHANNEL == 6,
{
}

/// During a session the channel is never left for others, frames of both kinds go out when they are due,
/// and silent peers are forgotten and reported when it is time to look for them; the next look follows
/// after the timeout.
pub proof fn sessions_do_what_is_due(
    before: CommonResources,
    after: CommonResources,
    our_address: [u8; 6],
    event: ManagementEvent,
    now: u64,
    action: ManagementAction,
)
    requires
        event_handled(before, after, our_address, event, now, action),
    ensures
        event is OffChannelRequest ==> action is RejectOffChannelRequest && after == before,
        event is PsfTick ==> action == ManagementAction::SendActionFrame(0) && after == before,
        event is MifDeadline ==> action == ManagementAction::SendActionFrame(3) && after == before,
        event is StalePeerTick ==> {
            let timeout = before.dynamic_session_parameters.stale_peer_timeout;
            let peers = before.peer_cache.peers@;
            &&& action matches ManagementAction::RaiseEvents(events, interval)
            &&& interval == timeout
            &&& forall|i: int|
                0 <= i < after.peer_cache.peers@.len() ==> now - (
                #[trigger] after.peer_cache.peers@[i]).peer.last_frame <= timeout
            &&& forall|i: int|
                0 <= i < peers.len() && now - (#[trigger] peers[i]).peer.last_frame <= timeout
                    ==> after.peer_cache.peers@.contains(peers[i])
            &&& events@.len() + after.peer_cache.peers@.len() == peers.len()
            &&& forall|i: int|
                0 <= i < peers.len() && now - (#[trigger] peers[i]).peer.last_frame > timeout
                    ==> exists|j: int|
                    0 <= j < events@.len() && (#[trigger] events@[j] matches AwdlEvent::PeerWentStale(
                        parameters,
                    ) && parameters.address == peers[i].address)
        },
{
    if event is StalePeerTick {
        let timeout = before.dynamic_session_parameters.stale_peer_timeout;
        let peers = before.peer_cache.peers@;
        let count = peers.len() as int;
        let stale = selected(peers, count, true, timeout, now);
        let kept = selected(peers, count, false, timeout, now);
        assert(after.peer_cache.peers@ == kept);
        lemma_selections_add_up(peers, count, timeout, now);
        lemma_selected(peers, count, false, timeout, now);
        assert forall|i: int| 0 <= i < kept.len() implies now - (
        #[trigger] kept[i]).peer.last_frame <= timeout by {
            let source = selection_index(peers, count, false, timeout, now, i);
            assert(kept[i] == peers[source]);
        }
        assert forall|i: int|
            0 <= i < peers.len() && now - (#[trigger] peers[i]).peer.last_frame
                <= timeout implies kept.contains(peers[i]) by {
            lemma_selection_contains(peers, count, timeout, now, i);
        }
        let events = action->RaiseEvents_0@;
        assert forall|i: int|
            0 <= i < peers.len() && now - (#[trigger] peers[i]).peer.last_frame
                > timeout implies exists|j: int|
            0 <= j < events.len() && (#[trigger] events[j] matches AwdlEvent::PeerWentStale(
                parameters,
            ) && parameters.address == peers[i].address) by {
            lemma_selection_contains(peers, count, timeout, now, i);
            let j = choose|j: int| 0 <= j < stale.len() && stale[j] == peers[i];
            assert(events[j] == stale_event(stale[j]));
        }
    }
}

/// Both selections together have as many peers as there are.
proof fn lemma_selections_add_up(peers: Seq<CachedPeer>, count: int, timeout: u64, now: u64)
    requires
        0 <= count <= peers.len(),
    ensures
        selected(peers, count, true, timeout, now).len() + selected(
            peers,
            count,
            false,
            timeout,
            now,
        ).len() == count,
    decreases count,
{
    if count > 0 {
        lemma_selections_add_up(peers, count - 1, timeout, now);
    }
}

/// A frame of a peer that is known updates it; one of a new peer introduces it, if the frame tells both
/// its clock and its election; everything else changes nothing. New peers are always reported.
pub proof fn action_frames_introduce_and_update_peers(
    before: CommonResources,
    after: CommonResources,
    our_address: [u8; 6],
    transmitter: [u8; 6],
    received: ActionFrame,
    rx_timestamp: u64,
    now: u64,
    event: Option<AwdlEvent>,
)
    requires
        action_frame_processed(
            before,
            after,
            our_address,
            transmitter,
            received,
            rx_timestamp,
            now,
            event,
        ),
    ensures
        (exists|i: int|
            0 <= i < before.peer_cache.peers@.len() && (
            #[trigger] before.peer_cache.peers@[i]).address@ == transmitter@) ==> {
            &&& after.peer_cache.peers@.len() == before.peer_cache.peers@.len()
            &&& exists|i: int|
                0 <= i < after.peer_cache.peers@.len() && (
                #[trigger] after.peer_cache.peers@[i]).address@ == transmitter@
                    && after.peer_cache.peers@[i].peer.last_frame == now
            &&& !(event matches Some(AwdlEvent::PeerDiscovered(_)))
        },
        !(exists|i: int|
            0 <= i < before.peer_cache.peers@.len() && (
            #[trigger] before.peer_cache.peers@[i]).address@ == transmitter@) ==> {
            let complete = received.tells_synchronization() && received.tells_election();
            &&& complete ==> event == Some(AwdlEvent::PeerDiscovered(transmitter))
            &&& complete && before.peer_cache.peers@.len() < 16 ==> {
                &&& after.peer_cache.peers@.len() == before.peer_cache.peers@.len() + 1
                &&& after.peer_cache.peers@.last().address == transmitter
            }
            &&& !complete ==> event is None && after == before
        },
{
    if exists|i: int|
        0 <= i < before.peer_cache.peers@.len() && (
        #[trigger] before.peer_cache.peers@[i]).address@ == transmitter@ {
        let i = choose|i: int|
            0 <= i < before.peer_cache.peers@.len() && (
            #[trigger] before.peer_cache.peers@[i]).address@ == transmitter@;
        assert(before.peer_cache.is_at(i, transmitter@));
        let index = choose|index: int|
            {
                &&& #[trigger] before.peer_cache.is_at(index, transmitter@)
                &&& is_after_known_peer(
                    after,
                    before,
                    index,
                    transmitter,
                    received,
                    rx_timestamp,
                    now,
                )
                &&& event == service_event(
                    before.peer_cache.peers@[index].peer,
                    after.peer_cache.peers@[index].peer,
                    transmitter,
                )
            };
        frames_update_their_sender(after, before, index, transmitter, received, rx_timestamp, now);
        assert(after.peer_cache.peers@[index].address@ == transmitter@);
    } else {
        assert(!before.peer_cache.contains(transmitter@)) by {
            if before.peer_cache.contains(transmitter@) {
                let index = choose|index: int|
                    #[trigger] before.peer_cache.is_at(index, transmitter@);
                assert(before.peer_cache.peers@[index].address@ == transmitter@);
            }
        }
        if received.tells_synchronization() && received.tells_election() {
            new_peers_are_remembered(
                after,
                before,
                our_address,
                transmitter,
                received,
                rx_timestamp,
                now,
            );
        }
    }
}

/// What a frame holds is told apart by its bytes: action frames with their sender, MSDUs, and nothing.
pub proof fn received_frames_are_told_apart(frame: Seq<u8>, received: RxFrame)
    requires
        frame.len() >= 40,
        is_recognized(frame, received),
    ensures
        frame[1] & 0x80 == 0 && frame[0] & 0xfc == 0xd0 && frame.subrange(24, 30) == seq![
            127u8, 0x00, 0x17, 0xf2, 8, 0x10,
        ] ==> {
            &&& received matches RxFrame::Action(transmitter, action)
            &&& transmitter@ == frame.subrange(10, 16)
            &&& action.subtype == frame[30]
            &&& action.phy_tx_time == le_value(frame.subrange(32, 36))
            &&& action.target_tx_time == le_value(frame.subrange(36, 40))
            &&& action.tlvs@ == frame.subrange(40, frame.len() as int)
        },
        frame[0] & 0x0c == 0x08 ==> (received matches RxFrame::Msdu(msdu) && msdu.stands_in(frame)
            <==> received is Msdu) && (received is Msdu <==> carries_awdl_msdu(frame)),
        frame[0] & 0x0c == 0x08 ==> !(received is Action),
{
    let control = frame[0];
    assert(control & 0x0c == 0x08 ==> (control >> 2) & 3 == 2) by (bit_vector);
    if frame[1] & 0x80 == 0 {
        action_frames_are_recognized(frame);
        let payload = vendor_payload(frame);
        if received is Action {
            assert(payload[2] == frame[30]);
            assert(payload.subrange(4, 8) =~= frame.subrange(32, 36));
            assert(payload.subrange(8, 12) =~= frame.subrange(36, 40));
            assert(payload.subrange(12, payload.len() as int) =~= frame.subrange(
                40,
                frame.len() as int,
            ));
        }
    }
}

/// A new session starts afresh: nobody is known of an earlier one, we follow ourselves with the first
/// metric, all 16 slots are on the channel, and the clock starts now. Without a session nothing of
/// that changes.
pub proof fn sessions_start_afresh(
    before: (AwdlRunner, CommonResources),
    after: (AwdlRunner, CommonResources),
    state: AwdlState,
    now: u64,
)
    requires
        state_changed(before, after, state, now),
    ensures
        before.0.session is Some ==> after.1.peer_cache.peers@.len() == 0,
        before.0.session is None ==> after.1.peer_cache == before.1.peer_cache,
        after.1.dynamic_session_parameters == before.1.dynamic_session_parameters,
        state matches AwdlState::Active { our_address, channel } ==> {
            let election = after.1.election_state;
            let clock = after.1.sync_state;
            &&& after.0.session == Some(our_address)
            &&& election.root_peer == our_address
            &&& election.sync_peer == Some(our_address)
            &&& election.distance_to_master == 0
            &&& election.self_metric == 60 && election.master_metric == 60
            &&& election.self_counter == Some(0u32) && election.master_counter == Some(0u32)
            &&& clock.channel_sequence@.len() == 16
            &&& forall|i: int|
                0 <= i < 16 ==> #[trigger] clock.channel_sequence@[i] == channel
            &&& now < 0x8000_0000_0000_0000 ==> clock.tsf_epoch_in_us == now
            &&& (now - clock.tsf_epoch_in_us) % 0x1_0000_0000_0000_0000 == 0
        },
        state is Inactive ==> {
            &&& after.0.session is None
            &&& after.1.election_state == before.1.election_state
            &&& after.1.sync_state == before.1.sync_state
        },
{
}

} // verus!

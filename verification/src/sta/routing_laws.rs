//! What is promised of the way that received frames take through the station.
use vstd::prelude::*;

use crate::eapol::EAPOL_LLC;
use crate::frame::{body_offset, frame_subtype, is_data_frame, subtype_has_payload};
use crate::lmac::SharedLMacState;
use crate::radio::ReceivedFrame;
use crate::sta::data_laws::{aggregate_bytes, has_data_bytes, header_bytes, lemma_data_bytes};
use crate::sta::runner::{frame_forwarded, routing_decision, Routing};
use crate::sta::rx_router::{
    belongs_to, response_received, ConnectionResponse, StaRxRouter, StaRxRouterOperation,
};
use crate::sta::rsn_group::spec_is_key_frame;
use crate::sta::StaTxRx;
use crate::util::rx_router::{RxRouterOperation, RxRouterQueue, RxRouterRoutingError};

verus! {

/// Whether a data frame carries EAPOL without protection, going by the protocol behind its header.
pub open spec fn eapol_bytes(frame: Seq<u8>) -> bool {
    &&& has_data_bytes(frame)
    &&& header_bytes(frame) + 8 <= frame.len()
    &&& frame[header_bytes(frame) + 6] == 0x88
    &&& frame[header_bytes(frame) + 7] == 0x8e
}

/// The bits of the frame control field say the same as the fields made of them.
proof fn lemma_kind_bits(control: u8)
    ensures
        ((control >> 2) & 3 == 0 && control >> 4 == 8) == (control & 0xfc == 0x80),
        ((control >> 2) & 3 == 0 && control >> 4 == 5) == (control & 0xfc == 0x50),
        ((control >> 2) & 3 == 0 && control >> 4 == 11) == (control & 0xfc == 0xb0),
        ((control >> 2) & 3 == 0 && control >> 4 == 1) == (control & 0xfc == 0x10),
        ((control >> 2) & 3 == 2) == (control & 0x0c == 0x08),
        control & 0x0c == 0x08 && (control >> 4 < 4 || 8 <= control >> 4 && control >> 4 < 12)
            <==> control & 0x4c == 0x08,
{
    assert(((control >> 2) & 3 == 0 && control >> 4 == 8) == (control & 0xfc == 0x80) && ((control
        >> 2) & 3 == 0 && control >> 4 == 5) == (control & 0xfc == 0x50) && ((control >> 2) & 3 == 0
        && control >> 4 == 11) == (control & 0xfc == 0xb0) && ((control >> 2) & 3 == 0 && control
        >> 4 == 1) == (control & 0xfc == 0x10) && ((control >> 2) & 3 == 2) == (control & 0x0c
        == 0x08)) by (bit_vector);
    assert((control & 0x0c == 0x08 && (control >> 4 < 4 || 8 <= control >> 4 && control >> 4 < 12))
        == (control & 0x4c == 0x08)) by (bit_vector);
}

/// Each step of a connection awaits the frames that answer it: authentication frames, association
/// responses, and key frames. A scan awaits beacons and probe responses.
pub proof fn operations_await_their_frames(operation: StaRxRouterOperation, frame: Seq<u8>)
    requires
        frame.len() >= 24,
    ensures
        operation is Scanning ==> operation.relevant(frame) == (frame[0] & 0xfc == 0x80 || frame[0]
            & 0xfc == 0x50),
        operation is Authenticating ==> operation.relevant(frame) == (frame[0] & 0xfc == 0xb0),
        operation is Associating ==> operation.relevant(frame) == (frame[0] & 0xfc == 0x10),
        operation is CryptoHandshake ==> operation.relevant(frame) == eapol_bytes(frame),
{
    lemma_kind_bits(frame[0]);
    if has_data_bytes(frame) {
        lemma_data_bytes(frame);
    } else if is_data_frame(frame) && subtype_has_payload(frame_subtype(frame)) {
        lemma_control_bits_of(frame);
    }
}

/// A data frame with a body has the bytes of one.
proof fn lemma_control_bits_of(frame: Seq<u8>)
    requires
        frame.len() >= 24,
        is_data_frame(frame),
        subtype_has_payload(frame_subtype(frame)),
    ensures
        has_data_bytes(frame),
{
    lemma_kind_bits(frame[0]);
    crate::sta::data_laws::lemma_control_bits(frame[0], frame[1]);
}

/// A frame that arrived for an earlier step does not count for the current one.
pub proof fn stale_frames_do_not_belong(operation: StaRxRouterOperation, frame: ReceivedFrame)
    ensures
        belongs_to(operation, frame) ==> operation.relevant(frame.mpdu@),
        frame.mpdu@.len() >= 10 && operation.relevant(frame.mpdu@) ==> belongs_to(operation, frame),
        frame.mpdu@.len() < 10 ==> !belongs_to(operation, frame),
{
}

/// Frames that the foreground operation awaits wait in its queue, all others in that of the
/// background, each behind those that came before. A frame that finds its queue full is refused, and
/// nothing else happens.
pub proof fn routed_frames_wait_in_their_queue(
    before: StaRxRouter,
    after: StaRxRouter,
    frame: Seq<u8>,
    handle: usize,
    result: Result<Option<RxRouterQueue>, RxRouterRoutingError>,
)
    requires
        before.wf(),
        frame.len() >= 10,
        after.is_after_route(before, frame, handle, result),
    ensures
        ({
            let awaited = before.foreground_queue_state.operation_state matches Some(operation)
                && operation.relevant(frame);
            let foreground = before.foreground_queue_state.queue@;
            let background = before.background_queue_state.queue@;
            &&& awaited && foreground.len() < 4 ==> {
                &&& result == Ok::<_, RxRouterRoutingError>(Some(RxRouterQueue::Foreground))
                &&& after.foreground_queue_state.queue@ == foreground.push(handle)
                &&& after.background_queue_state.queue@ == background
            }
            &&& !awaited && background.len() < 4 ==> {
                &&& result == Ok::<_, RxRouterRoutingError>(Some(RxRouterQueue::Background))
                &&& after.background_queue_state.queue@ == background.push(handle)
                &&& after.foreground_queue_state.queue@ == foreground
            }
            &&& (if awaited {
                foreground.len()
            } else {
                background.len()
            }) >= 4 ==> {
                &&& result is Err
                &&& after.foreground_queue_state.queue@ == foreground
                &&& after.background_queue_state.queue@ == background
            }
        }),
        after.foreground_queue_state.operation_state
            == before.foreground_queue_state.operation_state,
        after.background_queue_state.operation_state
            == before.background_queue_state.operation_state,
{
}

/// Data frames for us, or for everybody, are delivered while we are connected, unless they carry key
/// frames or somebody is off channel.
pub proof fn data_is_delivered_while_connected(
    sta_tx_rx: StaTxRx,
    state: SharedLMacState,
    router: StaRxRouter,
    frame: Seq<u8>,
)
    requires
        sta_tx_rx.connection_state.info() is Some,
        state.channel_state.off_channel_operation_interface is None,
        has_data_bytes(frame),
        frame[4] & 1 != 0 || frame.subrange(4, 10)
            == sta_tx_rx.connection_state.info()->Some_0.own_address@,
        frame[1] & 0x40 == 0,
        header_bytes(frame) + 8 <= frame.len(),
        !(frame[header_bytes(frame) + 6] == 0x88 && frame[header_bytes(frame) + 7] == 0x8e),
    ensures
        routing_decision(sta_tx_rx, state, router, frame) is Data,
{
    lemma_data_bytes(frame);
    let body = frame.subrange(body_offset(frame), frame.len() as int);
    assert(body_offset(frame) == header_bytes(frame));
    if spec_is_key_frame(frame) {
        let llc = body.subrange(0, 8);
        assert(llc[6] == body[6] && llc[7] == body[7]);
    }
}

/// Whatever arrives for us while we are connected and is no data goes to the router, and so do key
/// frames; while we are not connected, everything does. No frame gets there while somebody else is
/// off channel.
pub proof fn other_frames_go_to_the_router(
    sta_tx_rx: StaTxRx,
    state: SharedLMacState,
    router: StaRxRouter,
    frame: Seq<u8>,
)
    requires
        frame.len() >= 24,
    ensures
        ({
            let decision = routing_decision(sta_tx_rx, state, router, frame);
            let idle = state.channel_state.off_channel_operation_interface is None;
            let ours = state.channel_state.off_channel_operation_interface == Some(
                sta_tx_rx.interface_control.interface,
            );
            &&& !idle && !ours ==> decision is Drop
            &&& (idle || ours) && frame[4] & 1 != 0 && frame[0] & 0x0c != 0x08 ==> decision is Route
            &&& (idle || ours) && frame[4] & 1 != 0 && eapol_bytes(frame) ==> decision is Route
            &&& (idle || ours) && frame[4] & 1 != 0 && sta_tx_rx.connection_state.info() is None
                ==> decision is Route
            &&& ours ==> !(decision is Data)
            &&& sta_tx_rx.connection_state.info() is None ==> !(decision is Data)
        }),
        sta_tx_rx.connection_state.info() matches Some(info) ==> {
            let decision = routing_decision(sta_tx_rx, state, router, frame);
            let idle = state.channel_state.off_channel_operation_interface is None;
            &&& frame[4] & 1 == 0 && frame.subrange(4, 10) != info.own_address@ ==> decision is Drop
            &&& idle && frame.subrange(4, 10) == info.own_address@ && (frame[0] & 0x0c != 0x08
                || eapol_bytes(frame)) ==> decision is Route
        },
{
    lemma_kind_bits(frame[0]);
    if has_data_bytes(frame) {
        lemma_data_bytes(frame);
    }
}

/// While a connection is being established, frames for other stations than the one that connects are
/// dropped.
pub proof fn frames_for_others_are_dropped_while_connecting(
    sta_tx_rx: StaTxRx,
    state: SharedLMacState,
    router: StaRxRouter,
    frame: Seq<u8>,
    operation: StaRxRouterOperation,
    own: crate::mac::MACAddress,
)
    requires
        frame.len() >= 24,
        sta_tx_rx.connection_state.info() is None,
        router.foreground_queue_state.operation_state == Some(operation),
        operation == (StaRxRouterOperation::Authenticating { own_address: own }) || operation == (
        StaRxRouterOperation::Associating { own_address: own }) || operation == (
        StaRxRouterOperation::CryptoHandshake { own_address: own }),
        state.channel_state.off_channel_operation_interface is None,
    ensures
        frame[4] & 1 == 0 && frame.subrange(4, 10) != own@ ==> routing_decision(
            sta_tx_rx,
            state,
            router,
            frame,
        ) is Drop,
        frame.subrange(4, 10) == own@ ==> routing_decision(
            sta_tx_rx,
            state,
            router,
            frame,
        ) is Route,
{
}

/// Behind a CCMP header key frames are recognized too: they go to the router, and all other data that
/// is for us is delivered.
pub proof fn protected_frames_go_by_their_body(
    sta_tx_rx: StaTxRx,
    state: SharedLMacState,
    router: StaRxRouter,
    frame: Seq<u8>,
)
    requires
        sta_tx_rx.connection_state.info() is Some,
        state.channel_state.off_channel_operation_interface is None,
        has_data_bytes(frame),
        frame[4] & 1 != 0 || frame.subrange(4, 10)
            == sta_tx_rx.connection_state.info()->Some_0.own_address@,
        frame[1] & 0x40 != 0,
        header_bytes(frame) + 18 <= frame.len(),
        frame[header_bytes(frame) + 3] & 0x20 != 0,
        !(frame[header_bytes(frame) + 6] == 0x88 && frame[header_bytes(frame) + 7] == 0x8e),
    ensures
        ({
            let body = frame.skip(header_bytes(frame) + 8);
            let key_frame = body.take(8) == seq![0xaau8, 0xaa, 0x03, 0, 0, 0, 0x88, 0x8e] && body[9]
                == 3;
            let decision = routing_decision(sta_tx_rx, state, router, frame);
            &&& key_frame && !aggregate_bytes(frame) ==> decision is Route
            &&& !key_frame || aggregate_bytes(frame) ==> decision is Data
        }),
{
    lemma_data_bytes(frame);
    assert(body_offset(frame) == header_bytes(frame) + 8);
    let body = frame.skip(header_bytes(frame) + 8);
    assert(body =~= frame.subrange(body_offset(frame), frame.len() as int));
    assert(body.take(8) =~= body.subrange(0, 8));
    assert(EAPOL_LLC@ =~= seq![0xaau8, 0xaa, 0x03, 0, 0, 0, 0x88, 0x8e]);
}

/// Of the frames that wait, the first that answers the current step is taken, together with all in
/// front of it, which answer another; the others keep waiting.
pub proof fn responses_come_before_what_follows(
    before: StaRxRouter,
    after: StaRxRouter,
    of: RxRouterQueue,
    frames: Seq<ReceivedFrame>,
    received: ConnectionResponse,
    position: int,
)
    requires
        before.state(of).operation_state is Some,
        response_received(before, after, of, frames, received),
        0 <= position < before.state(of).queue@.len(),
        frames[before.state(of).queue@[position] as int].mpdu@.len() >= 24,
        forall|i: int|
            0 <= i < position ==> frames[(
            #[trigger] before.state(of).queue@[i]) as int].mpdu@.len() >= 24,
    ensures
        ({
            let operation = before.state(of).operation_state->Some_0;
            let queue = before.state(of).queue@;
            let is_first = |control: u8|
                {
                    &&& frames[queue[position] as int].mpdu@[0] & 0xfc == control
                    &&& forall|i: int|
                        0 <= i < position ==> frames[(#[trigger] queue[i]) as int].mpdu@[0] & 0xfc
                            != control
                };
            operation is Authenticating && is_first(0xb0) || operation is Associating && is_first(
                0x10,
            ) ==> {
                &&& received.response == Some(queue[position])
                &&& received.stale@ == queue.take(position)
                &&& after.state(of).queue@ == queue.skip(position + 1)
            }
        }),
        before.state(of).operation_state->Some_0 is CryptoHandshake && eapol_bytes(
            frames[before.state(of).queue@[position] as int].mpdu@,
        ) && (forall|i: int|
            0 <= i < position ==> !eapol_bytes(
                frames[(#[trigger] before.state(of).queue@[i]) as int].mpdu@,
            )) ==> {
            &&& received.response == Some(before.state(of).queue@[position])
            &&& received.stale@ == before.state(of).queue@.take(position)
            &&& after.state(of).queue@ == before.state(of).queue@.skip(position + 1)
        },
        received.response matches Some(response) ==> before.state(of).queue@.contains(response)
            && belongs_to(before.state(of).operation_state->Some_0, frames[response as int]),
        after.state(of.spec_opposite()) == before.state(of.spec_opposite()),
{
    let operation = before.state(of).operation_state->Some_0;
    let queue = before.state(of).queue@;
    let stale = received.stale@;
    assert(operation.relevant(frames[queue[position] as int].mpdu@) == belongs_to(
        operation,
        frames[queue[position] as int],
    ));
    operations_await_their_frames(operation, frames[queue[position] as int].mpdu@);
    assert forall|i: int| 0 <= i < position implies belongs_to(
        operation,
        frames[(#[trigger] queue[i]) as int],
    ) == operation.relevant(frames[queue[i] as int].mpdu@) && (operation is Authenticating ==> operation.relevant(frames[queue[i] as int].mpdu@) == (
    frames[queue[i] as int].mpdu@[0] & 0xfc == 0xb0)) && (operation is Associating ==> operation.relevant(frames[queue[i] as int].mpdu@) == (
    frames[queue[i] as int].mpdu@[0] & 0xfc == 0x10)) && (operation is CryptoHandshake ==> operation.relevant(frames[queue[i] as int].mpdu@) == eapol_bytes(frames[queue[i] as int].mpdu@)) by {
        operations_await_their_frames(operation, frames[queue[i] as int].mpdu@);
    }
    assert forall|i: int| 0 <= i < stale.len() implies #[trigger] stale[i] == queue[i] by {}
    if let Some(response) = received.response {
        assert(queue[stale.len() as int] == response);
        if stale.len() == position {
            assert(stale =~= queue.take(position));
            assert(after.state(of).queue@ =~= queue.skip(position + 1));
        } else if stale.len() > position {
            assert(stale[position] == queue[position]);
        } else {
            assert(belongs_to(operation, frames[queue[stale.len() as int] as int]));
        }
    } else {
        assert(stale[position] == queue[position]);
    }
}

/// What is decided of a frame is done: data is delivered and leaves the router alone, other frames go
/// to the router and change nothing of the station, and dropped frames change nothing at all.
pub proof fn decided_frames_are_forwarded(
    before: (StaTxRx, StaRxRouter),
    after: (StaTxRx, StaRxRouter),
    state: SharedLMacState,
    frame: Seq<u8>,
    handle: usize,
    capacity: nat,
    routing: Routing,
)
    requires
        before.1.wf(),
        frame.len() >= 24,
        frame_forwarded(before, after, state, frame, handle, capacity, routing),
    ensures
        ({
            let own = before.0.interface_control.interface;
            let off_channel = state.channel_state.off_channel_operation_interface;
            let ours = frame[4] & 1 != 0 || (before.0.connection_state.info() matches Some(info)
                && frame.subrange(4, 10) == info.own_address@);
            &&& off_channel is Some && off_channel != Some(own) ==> routing is Dropped && after
                == before
            &&& off_channel is None && ours && frame[0] & 0x0c != 0x08 ==> routing is Routed
                && after.0 == before.0 && (before.1.background_queue_state.queue@.len() < 4
                && before.1.foreground_queue_state.queue@.len() < 4 ==> (
            after.1.background_queue_state.queue@ == before.1.background_queue_state.queue@.push(
                handle,
            ) || after.1.foreground_queue_state.queue@
                == before.1.foreground_queue_state.queue@.push(handle)))
            &&& off_channel is None && ours && eapol_bytes(frame) ==> routing is Routed && after.0
                == before.0
            &&& off_channel is None && ours && before.0.connection_state.info() is Some
                && has_data_bytes(frame) && frame[1] & 0x40 == 0 && header_bytes(frame) + 8
                <= frame.len() && !eapol_bytes(frame) ==> routing is Delivered && after.1
                == before.1
        }),
{
    other_frames_go_to_the_router(before.0, state, before.1, frame);
    if routing is Routed && after.0 == before.0 {
        routed_frames_wait_in_their_queue(before.1, after.1, frame, handle, routing->Routed_0);
    }
    if before.0.connection_state.info() is Some && has_data_bytes(frame) && frame[1] & 0x40 == 0
        && header_bytes(frame) + 8 <= frame.len() && !eapol_bytes(frame) && (frame[4] & 1 != 0
        || frame.subrange(4, 10) == before.0.connection_state.info()->Some_0.own_address@)
        && state.channel_state.off_channel_operation_interface is None {
        data_is_delivered_while_connected(before.0, state, before.1, frame);
    }
}

} // verus!

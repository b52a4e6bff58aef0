//! What a connection promises for data, over the bytes of the frames.
use vstd::prelude::*;

use crate::bytes::{
    be_value, le_bytes, le_value, lemma_be_bytes_of_value, lemma_le_round_trip, pow256,
};
use crate::frame::{
    crypto_header, data_header_length, frame_subtype, frame_type, is_amsdu, subtype_has_payload,
    subtype_is_qos, DataBody,
};
use crate::msdu::{ethernet_frame, plain_msdu_frame, protected_msdu_frame};
use crate::sta::runner::{
    amsdu_delivery, body_passed, data_handled, is_well_formed, msdu_encoded, Delivery,
};
use crate::sta::StaTxRx;
use crate::tx_queue::RetryBehaviour;
use crate::util::operations::deauth::Transmission;

verus! {

/// Where the body of a data frame starts, or its CCMP header if it is protected: behind the three
/// addresses, a fourth one if the frame goes to and comes from the distribution system, two bytes of
/// QoS control and four bytes of HT control.
pub open spec fn header_bytes(frame: Seq<u8>) -> int {
    24 + (if frame[1] & 0x03 == 0x03 {
        6int
    } else {
        0
    }) + (if frame[0] & 0x80 != 0 {
        2int
    } else {
        0
    }) + (if frame[1] & 0x80 != 0 {
        4int
    } else {
        0
    })
}

/// Whether `frame` is a data frame with a body.
pub open spec fn has_data_bytes(frame: Seq<u8>) -> bool {
    &&& frame.len() >= 24
    &&& frame[0] & 0x4c == 0x08
    &&& header_bytes(frame) <= frame.len()
}

/// Whether the QoS control of a data frame says that its body is an aggregate.
pub open spec fn aggregate_bytes(frame: Seq<u8>) -> bool {
    frame[0] & 0x80 != 0 && frame[if frame[1] & 0x03 == 0x03 {
        30int
    } else {
        24
    }] & 0x80 != 0
}

/// The bytes that name the destination of a data frame: the first address, or the third on the way to
/// the distribution system.
pub open spec fn destination_bytes(frame: Seq<u8>) -> Seq<u8> {
    if frame[1] & 0x01 == 0 {
        frame.subrange(4, 10)
    } else {
        frame.subrange(16, 22)
    }
}

/// The bytes that name the source of a data frame: the second address, or the third on the way from
/// the distribution system, or the fourth within it.
pub open spec fn source_bytes(frame: Seq<u8>) -> Seq<u8> {
    if frame[1] & 0x02 == 0 {
        frame.subrange(10, 16)
    } else if frame[1] & 0x01 == 0 {
        frame.subrange(16, 22)
    } else {
        frame.subrange(24, 30)
    }
}

/// The bits of the frame control field say the same as the fields made of them.
pub proof fn lemma_control_bits(control: u8, flags: u8)
    requires
        control & 0x4c == 0x08,
    ensures
        (control >> 2) & 3 == 2,
        subtype_has_payload(control >> 4),
        subtype_is_qos(control >> 4) == (control & 0x80 != 0),
        (flags & 0x01 != 0 && flags & 0x02 != 0) == (flags & 0x03 == 0x03),
{
    assert(control & 0x4c == 0x08 ==> (control >> 2) & 3 == 2 && ((control >> 4) < 4 || 8 <= (
    control >> 4) && (control >> 4) < 12) && ((control >> 4) >= 8 && (control >> 4) != 13) == (
    control & 0x80 != 0)) by (bit_vector);
    assert((flags & 0x01 != 0 && flags & 0x02 != 0) == (flags & 0x03 == 0x03)) by (bit_vector);
}

/// The bytes of a data frame are what its header fields say.
pub proof fn lemma_data_bytes(frame: Seq<u8>)
    requires
        has_data_bytes(frame),
    ensures
        frame_type(frame) == 2,
        subtype_has_payload(frame_subtype(frame)),
        data_header_length(frame) == header_bytes(frame),
        is_amsdu(frame) == aggregate_bytes(frame),
        !aggregate_bytes(frame) ==> {
            &&& crate::frame::destination_of(frame) == Some(destination_bytes(frame))
            &&& crate::frame::source_of(frame) == Some(source_bytes(frame))
        },
{
    lemma_control_bits(frame[0], frame[1]);
}

/// The Ethernet frame for an MSDU behind a SNAP header.
pub open spec fn ethernet_bytes(destination: Seq<u8>, source: Seq<u8>, msdu: Seq<u8>) -> Seq<u8> {
    destination + source + msdu.subrange(6, msdu.len() as int)
}

/// Whether bytes start with a SNAP header.
pub open spec fn snap_bytes(msdu: Seq<u8>) -> bool {
    msdu.len() >= 8 && msdu[0] == 0xaa && msdu[1] == 0xaa && msdu[2] & 3 != 0
}

/// An Ethernet frame repeats the protocol and the payload of the MSDU.
proof fn lemma_ethernet_bytes(destination: Seq<u8>, source: Seq<u8>, msdu: Seq<u8>)
    requires
        msdu.len() >= 8,
    ensures
        ethernet_frame(
            destination,
            source,
            be_value(msdu.subrange(6, 8)),
            msdu.subrange(8, msdu.len() as int),
        ) == ethernet_bytes(destination, source, msdu),
{
    lemma_be_bytes_of_value(msdu.subrange(6, 8));
    assert(msdu.subrange(6, 8) + msdu.subrange(8, msdu.len() as int) =~= msdu.subrange(
        6,
        msdu.len() as int,
    ));
    assert(ethernet_frame(
        destination,
        source,
        be_value(msdu.subrange(6, 8)),
        msdu.subrange(8, msdu.len() as int),
    ) =~= ethernet_bytes(destination, source, msdu));
}

/// Every data frame without protection that holds one MSDU is delivered as one Ethernet frame, if
/// that fits, whoever it is addressed to. It has the destination and source of the frame, and the
/// protocol and payload of the MSDU. Nothing of the connection changes.
pub proof fn unprotected_data_is_delivered(
    before: StaTxRx,
    after: StaTxRx,
    frame: Seq<u8>,
    capacity: nat,
    delivery: Delivery,
)
    requires
        has_data_bytes(frame),
        frame[1] & 0x40 == 0,
        !aggregate_bytes(frame),
        snap_bytes(frame.subrange(header_bytes(frame), frame.len() as int)),
        frame.len() - header_bytes(frame) + 6 <= capacity,
        data_handled(before, after, frame, capacity, delivery),
    ensures
        delivery.complete,
        delivery.frames@.len() == 1,
        delivery.frames@[0]@ == ethernet_bytes(
            destination_bytes(frame),
            source_bytes(frame),
            frame.subrange(header_bytes(frame), frame.len() as int),
        ),
        after == before,
{
    let body = frame.subrange(header_bytes(frame), frame.len() as int);
    lemma_data_bytes(frame);
    lemma_ethernet_bytes(destination_bytes(frame), source_bytes(frame), body);
    assert(delivery.contents().len() == 1);
    assert(delivery.contents()[0] == delivery.frames@[0]@);
}

/// The packet number in the CCMP header of a protected frame.
pub open spec fn packet_number_bytes(frame: Seq<u8>) -> nat {
    let at = header_bytes(frame);
    le_value(
        seq![
            frame[at],
            frame[at + 1],
            frame[at + 4],
            frame[at + 5],
            frame[at + 6],
            frame[at + 7],
        ],
    )
}

/// The largest packet number that was received under the key that protects a frame: the pairwise key
/// for frames to one station, else the group key that the CCMP header names. There is none without
/// such a key.
pub open spec fn last_packet_number(sta_tx_rx: StaTxRx, frame: Seq<u8>) -> Option<u64> {
    match sta_tx_rx.crypto_state {
        None => None,
        Some(state) => if destination_bytes(frame)[0] & 1 == 0 {
            Some(state.security_associations.ptksa.replay_counter)
        } else {
            match state.security_associations.group_keys@[(frame[header_bytes(frame) + 3]
                >> 6) as int] {
                Some(key) => Some(key.replay_counter),
                None => None,
            }
        },
    }
}

/// Whether nothing of a connection has changed but the largest packet number under the key of a frame.
pub open spec fn only_counter_changed(before: StaTxRx, after: StaTxRx, frame: Seq<u8>) -> bool {
    let old_keys = before.crypto_state->Some_0.security_associations;
    let new_keys = after.crypto_state->Some_0.security_associations;
    &&& before.crypto_state is Some
    &&& after.crypto_state is Some
    &&& after.connection_state == before.connection_state
    &&& after.phy_rate == before.phy_rate
    &&& after.crypto_state->Some_0.ptk_key_slot == before.crypto_state->Some_0.ptk_key_slot
    &&& after.crypto_state->Some_0.message3_replay == before.crypto_state->Some_0.message3_replay
    &&& new_keys.ptksa.key == old_keys.ptksa.key
    &&& new_keys.ptksa.packet_number == old_keys.ptksa.packet_number
    &&& new_keys.active_group_id == old_keys.active_group_id
    &&& if destination_bytes(frame)[0] & 1 == 0 {
        new_keys.group_keys == old_keys.group_keys
    } else {
        let used = (frame[header_bytes(frame) + 3] >> 6) as int;
        &&& new_keys.ptksa == old_keys.ptksa
        &&& forall|id: int|
            0 <= id < 4 && id != used ==> #[trigger] new_keys.group_keys@[id]
                == old_keys.group_keys@[id]
        &&& new_keys.group_keys@[used] is Some
        &&& old_keys.group_keys@[used] is Some
        &&& new_keys.group_keys@[used]->Some_0.key == old_keys.group_keys@[used]->Some_0.key
    }
}

/// Every protected data frame that holds one MSDU is delivered as one Ethernet frame, if that fits and
/// the packet number is larger than all that came before under the same key. Its packet number is
/// then the largest. A frame with an older packet number, or without a key, is dropped and changes
/// nothing.
pub proof fn protected_data_is_delivered_once(
    before: StaTxRx,
    after: StaTxRx,
    frame: Seq<u8>,
    capacity: nat,
    delivery: Delivery,
)
    requires
        has_data_bytes(frame),
        frame[1] & 0x40 != 0,
        !aggregate_bytes(frame),
        header_bytes(frame) + 16 <= frame.len(),
        snap_bytes(frame.subrange(header_bytes(frame) + 8, frame.len() as int)),
        frame.len() - header_bytes(frame) - 2 <= capacity,
        data_handled(before, after, frame, capacity, delivery),
    ensures
        if last_packet_number(before, frame) matches Some(last) && packet_number_bytes(frame)
            > last {
            &&& delivery.complete
            &&& delivery.frames@.len() == 1
            &&& delivery.frames@[0]@ == ethernet_bytes(
                destination_bytes(frame),
                source_bytes(frame),
                frame.subrange(header_bytes(frame) + 8, frame.len() as int),
            )
            &&& last_packet_number(after, frame) == Some(packet_number_bytes(frame) as u64)
            &&& packet_number_bytes(frame) <= u64::MAX
            &&& only_counter_changed(before, after, frame)
        } else {
            &&& !delivery.complete
            &&& delivery.frames@.len() == 0
            &&& after == before
        },
{
    let at = header_bytes(frame);
    let body = frame.subrange(at + 8, frame.len() as int);
    lemma_data_bytes(frame);
    lemma_ethernet_bytes(destination_bytes(frame), source_bytes(frame), body);
    let id = frame[at + 3];
    assert(id >> 6 < 4) by (bit_vector);
    let number = seq![
        frame[at],
        frame[at + 1],
        frame[at + 4],
        frame[at + 5],
        frame[at + 6],
        frame[at + 7],
    ];
    assert(frame.subrange(at, at + 2) + frame.subrange(at + 4, at + 8) =~= number);
    reveal_with_fuel(pow256, 7);
    lemma_le_value_bound(number);
    assert(delivery.contents().len() == delivery.frames@.len());
    if delivery.frames@.len() == 1 {
        assert(delivery.contents()[0] == delivery.frames@[0]@);
    }
}

/// What `n` bytes spell fits into `n` bytes.
proof fn lemma_le_value_bound(bytes: Seq<u8>)
    ensures
        le_value(bytes) < pow256(bytes.len()),
    decreases bytes.len(),
{
    if bytes.len() > 0 {
        lemma_le_value_bound(bytes.drop_first());
    }
}

/// The MSDUs of an aggregate are delivered one by one: first the Ethernet frame for the first MSDU,
/// with the addresses in front of it, then those for the rest. An aggregate without MSDUs leads to
/// none.
pub proof fn aggregates_are_delivered_one_by_one(
    destination: Seq<u8>,
    source: Seq<u8>,
    msdu: Seq<u8>,
    padding: Seq<u8>,
    rest: Seq<u8>,
    capacity: nat,
)
    requires
        destination.len() == 6,
        source.len() == 6,
        msdu.len() < 65536,
        snap_bytes(msdu),
        msdu.len() + 6 <= capacity,
        padding.len() < 4,
        (14 + msdu.len() + padding.len()) % 4 == 0,
    ensures
        ({
            let aggregate = destination + source + le_bytes(msdu.len(), 2) + msdu + padding + rest;
            amsdu_delivery(aggregate, capacity) == (
                seq![ethernet_bytes(destination, source, msdu)] + amsdu_delivery(
                    rest,
                    capacity,
                ).0,
                amsdu_delivery(rest, capacity).1,
            )
        }),
        amsdu_delivery(Seq::<u8>::empty(), capacity) == (Seq::<Seq<u8>>::empty(), true),
{
    let aggregate = destination + source + le_bytes(msdu.len(), 2) + msdu + padding + rest;
    reveal_with_fuel(pow256, 3);
    lemma_le_round_trip(msdu.len(), 2);
    lemma_ethernet_bytes(destination, source, msdu);
    assert(aggregate.subrange(0, 6) =~= destination);
    assert(aggregate.subrange(6, 12) =~= source);
    assert(aggregate.subrange(12, 14) =~= le_bytes(msdu.len(), 2));
    assert(aggregate.subrange(14, 14 + msdu.len() as int) =~= msdu);
    let span = 14 + msdu.len() + padding.len();
    assert((14 + msdu.len() + 3) / 4 * 4 == span);
    assert(aggregate.subrange(span as int, aggregate.len() as int) =~= rest);
}

/// All MSDUs in a data frame with an aggregate are delivered, as far as that goes, with the same
/// checks as single ones: where it is protected, its packet number has to be the largest so far.
pub proof fn aggregates_are_admitted_like_single_frames(
    before: StaTxRx,
    after: StaTxRx,
    frame: Seq<u8>,
    capacity: nat,
    delivery: Delivery,
)
    requires
        has_data_bytes(frame),
        aggregate_bytes(frame),
        frame[1] & 0x03 == 0,
        frame[1] & 0x40 != 0 ==> header_bytes(frame) + 8 <= frame.len(),
        data_handled(before, after, frame, capacity, delivery),
    ensures
        frame[1] & 0x40 == 0 ==> {
            &&& (delivery.contents(), delivery.complete) == amsdu_delivery(
                frame.subrange(header_bytes(frame), frame.len() as int),
                capacity,
            )
            &&& after == before
        },
        frame[1] & 0x40 != 0 ==> if last_packet_number(before, frame) matches Some(last)
            && packet_number_bytes(frame) > last {
            &&& (delivery.contents(), delivery.complete) == amsdu_delivery(
                frame.subrange(header_bytes(frame) + 8, frame.len() as int),
                capacity,
            )
            &&& last_packet_number(after, frame) == Some(packet_number_bytes(frame) as u64)
        } else {
            &&& delivery.frames@.len() == 0
            &&& after == before
        },
{
    lemma_data_bytes(frame);
    let flags = frame[1];
    assert(delivery.contents().len() == delivery.frames@.len());
    if frame[1] & 0x40 != 0 {
        let at = header_bytes(frame);
        let id = frame[at + 3];
        assert(id >> 6 < 4) by (bit_vector);
        let number = seq![
            frame[at],
            frame[at + 1],
            frame[at + 4],
            frame[at + 5],
            frame[at + 6],
            frame[at + 7],
        ];
        assert(frame.subrange(at, at + 2) + frame.subrange(at + 4, at + 8) =~= number);
        reveal_with_fuel(pow256, 7);
        lemma_le_value_bound(number);
    }
    assert(flags & 0x03 == 0 ==> flags & 0x01 == 0 && flags & 0x02 == 0) by (bit_vector);
}

/// An Ethernet frame with a payload goes out as one data frame to the access point, if that fits the
/// buffer. Its third address is the destination of the Ethernet frame, its second our own, and its
/// body holds the protocol and the payload behind a SNAP header.
pub proof fn unprotected_msdu_goes_to_its_destination(
    sta_tx_rx: StaTxRx,
    sta_tx_rx_after: StaTxRx,
    msdu: Seq<u8>,
    before: Seq<u8>,
    after: Seq<u8>,
    bssid: Seq<u8>,
    own: Seq<u8>,
    transmission: Option<Transmission>,
)
    requires
        bssid.len() == 6,
        own.len() == 6,
        before.len() <= usize::MAX,
        sta_tx_rx.crypto_state is None,
        msdu_encoded(
            sta_tx_rx,
            sta_tx_rx_after,
            msdu,
            before,
            after,
            bssid,
            own,
            transmission,
        ),
    ensures
        sta_tx_rx_after == sta_tx_rx,
        transmission is Some == (msdu.len() > 14 && msdu.len() + 18 <= before.len()),
        transmission is None ==> after == before,
        transmission matches Some(transmission) ==> {
            &&& transmission.length == msdu.len() + 18
            &&& transmission.mac_parameters.key_slot_index is None
            &&& transmission.mac_parameters.wait_for_ack
            &&& !transmission.mac_parameters.override_seq_num
            &&& transmission.retry_behaviour == RetryBehaviour::RetryUntil(7)
            &&& transmission.plcp_parameters.rate == sta_tx_rx.phy_rate
            &&& after.len() == before.len()
            &&& after[0] == 0x08
            &&& after[1] == 0x01
            &&& after.subrange(4, 10) == bssid
            &&& after.subrange(10, 16) == own
            &&& after.subrange(16, 22) == msdu.subrange(0, 6)
            &&& after.subrange(24, 30) == seq![0xaau8, 0xaa, 3, 0, 0, 0]
            &&& after.subrange(30, msdu.len() as int + 18) == msdu.subrange(12, msdu.len() as int)
        },
{
    if transmission is Some {
        let payload = msdu.subrange(14, msdu.len() as int);
        lemma_be_bytes_of_value(msdu.subrange(12, 14));
        let frame = plain_msdu_frame(
            bssid,
            own,
            msdu.subrange(0, 6),
            be_value(msdu.subrange(12, 14)),
            payload,
        );
        assert(frame.len() == msdu.len() + 18);
        assert(after.subrange(4, 10) =~= bssid);
        assert(after.subrange(10, 16) =~= own);
        assert(after.subrange(16, 22) =~= msdu.subrange(0, 6));
        assert(after.subrange(24, 30) =~= seq![0xaau8, 0xaa, 3, 0, 0, 0]);
        assert(after.subrange(30, msdu.len() as int + 18) =~= msdu.subrange(12, msdu.len() as int));
    }
}

/// On a protected connection the same goes behind a CCMP header with the next packet number and the
/// identifier of the pairwise key, which lies in the key slot that encrypts the frame. The frame is
/// marked as protected, and has room for the MIC at its end.
pub proof fn protected_msdu_goes_to_its_destination(
    sta_tx_rx: StaTxRx,
    sta_tx_rx_after: StaTxRx,
    msdu: Seq<u8>,
    before: Seq<u8>,
    after: Seq<u8>,
    bssid: Seq<u8>,
    own: Seq<u8>,
    transmission: Option<Transmission>,
)
    requires
        bssid.len() == 6,
        own.len() == 6,
        before.len() <= usize::MAX,
        sta_tx_rx.crypto_state is Some,
        sta_tx_rx.crypto_state->Some_0.security_associations.ptksa.packet_number < 0x1_0000_0000_0000,
        sta_tx_rx.crypto_state->Some_0.security_associations.ptksa.key_id == 0,
        msdu_encoded(
            sta_tx_rx,
            sta_tx_rx_after,
            msdu,
            before,
            after,
            bssid,
            own,
            transmission,
        ),
    ensures
        msdu.len() > 14 ==> {
            &&& sta_tx_rx_after.crypto_state is Some
            &&& sta_tx_rx_after.crypto_state->Some_0.security_associations.ptksa.packet_number
                == sta_tx_rx.crypto_state->Some_0.security_associations.ptksa.packet_number + 1
            &&& sta_tx_rx_after.crypto_state->Some_0.security_associations.ptksa.key
                == sta_tx_rx.crypto_state->Some_0.security_associations.ptksa.key
            &&& sta_tx_rx_after.connection_state == sta_tx_rx.connection_state
        },
        transmission is Some == (msdu.len() > 14 && msdu.len() + 34 <= before.len()),
        transmission is None ==> after == before,
        transmission matches Some(transmission) ==> {
            let state = sta_tx_rx.crypto_state->Some_0;
            &&& transmission.length == msdu.len() + 34
            &&& transmission.mac_parameters.key_slot_index == Some(state.ptk_key_slot.key_slot)
            &&& transmission.mac_parameters.wait_for_ack
            &&& !transmission.mac_parameters.override_seq_num
            &&& transmission.retry_behaviour == RetryBehaviour::RetryUntil(7)
            &&& transmission.plcp_parameters.rate == sta_tx_rx.phy_rate
            &&& after.len() == before.len()
            &&& after[0] == 0x08
            &&& after[1] == 0x41
            &&& after.subrange(4, 10) == bssid
            &&& after.subrange(10, 16) == own
            &&& after.subrange(16, 22) == msdu.subrange(0, 6)
            &&& le_value(
                seq![after[24], after[25], after[28], after[29], after[30], after[31]],
            ) == state.security_associations.ptksa.packet_number
            &&& after[27] == 0x20
            &&& after.subrange(32, 38) == seq![0xaau8, 0xaa, 3, 0, 0, 0]
            &&& after.subrange(38, msdu.len() as int + 26) == msdu.subrange(12, msdu.len() as int)
        },
{
    if transmission is Some {
        let state = sta_tx_rx.crypto_state->Some_0;
        let number = state.security_associations.ptksa.packet_number;
        let payload = msdu.subrange(14, msdu.len() as int);
        lemma_be_bytes_of_value(msdu.subrange(12, 14));
        reveal_with_fuel(pow256, 7);
        lemma_le_round_trip(number as nat, 6);
        let frame = protected_msdu_frame(
            bssid,
            own,
            msdu.subrange(0, 6),
            be_value(msdu.subrange(12, 14)),
            payload,
            number,
            0,
        );
        assert(crypto_header(number, 0).len() == 8);
        assert(0x20u8 | (0u8 << 6) == 0x20) by (bit_vector);
        assert(frame.len() == msdu.len() + 34);
        assert(after.subrange(4, 10) =~= bssid);
        assert(after.subrange(10, 16) =~= own);
        assert(after.subrange(16, 22) =~= msdu.subrange(0, 6));
        assert(after.subrange(24, 32) =~= crypto_header(number, 0));
        let header = after.subrange(24, 32);
        assert(after[24] == header[0] && after[25] == header[1] && after[27] == header[3]);
        assert(after[28] == header[4] && after[29] == header[5] && after[30] == header[6]
            && after[31] == header[7]);
        assert(seq![after[24], after[25], after[28], after[29], after[30], after[31]]
            =~= le_bytes(number as nat, 6));
        assert(after.subrange(32, 38) =~= seq![0xaau8, 0xaa, 3, 0, 0, 0]);
        assert(after.subrange(38, msdu.len() as int + 26) =~= msdu.subrange(12, msdu.len() as int));
    }
}

/// No packet number of the pairwise key is used for two frames, as long as there are any left.
pub proof fn packet_numbers_are_used_once(before: StaTxRx, after: StaTxRx)
    requires
        after.takes_packet_number(before),
        before.crypto_state is Some,
        before.crypto_state->Some_0.security_associations.ptksa.packet_number < u64::MAX,
    ensures
        after.crypto_state is Some,
        after.crypto_state->Some_0.security_associations.ptksa.packet_number
            == before.crypto_state->Some_0.security_associations.ptksa.packet_number + 1,
        after.crypto_state->Some_0.security_associations.ptksa.key
            == before.crypto_state->Some_0.security_associations.ptksa.key,
        after.crypto_state->Some_0.security_associations.ptksa.replay_counter
            == before.crypto_state->Some_0.security_associations.ptksa.replay_counter,
        after.crypto_state->Some_0.security_associations.group_keys
            == before.crypto_state->Some_0.security_associations.group_keys,
        after.connection_state == before.connection_state,
        after.phy_rate == before.phy_rate,
{
}

/// What one station sends arrives at another as it was, where the access point sends the body on, with
/// the destination as first address, its own as second and the source as third.
pub proof fn relayed_msdu_arrives(
    sender: StaTxRx,
    receiver: StaTxRx,
    after_receiver: StaTxRx,
    msdu: Seq<u8>,
    before: Seq<u8>,
    sent: Seq<u8>,
    bssid: Seq<u8>,
    own: Seq<u8>,
    transmission: Transmission,
    capacity: nat,
    delivery: Delivery,
)
    requires
        bssid.len() == 6,
        own.len() == 6,
        before.len() <= usize::MAX,
        sender.crypto_state is None,
        msdu_encoded(sender, sender, msdu, before, sent, bssid, own, Some(transmission)),
        msdu.len() <= capacity,
        ({
            let relayed = seq![0x08u8, 0x02, 0, 0] + sent.subrange(16, 22) + bssid + own + seq![
                0u8,
                0,
            ] + sent.subrange(24, transmission.length as int);
            data_handled(receiver, after_receiver, relayed, capacity, delivery)
        }),
    ensures
        delivery.complete,
        delivery.frames@.len() == 1,
        delivery.frames@[0]@ == msdu.subrange(0, 6) + own + msdu.subrange(12, msdu.len() as int),
{
    unprotected_msdu_goes_to_its_destination(
        sender,
        sender,
        msdu,
        before,
        sent,
        bssid,
        own,
        Some(transmission),
    );
    let relayed = seq![0x08u8, 0x02, 0, 0] + sent.subrange(16, 22) + bssid + own + seq![0u8, 0]
        + sent.subrange(24, transmission.length as int);
    assert(3u8 & 3 != 0 && 0x08u8 & 0x4c == 0x08 && 0x08u8 & 0x80 == 0 && 0x02u8 & 0x03 != 0x03 && 0x02u8 & 0x80
        == 0 && 0x02u8 & 0x40 == 0 && 0x02u8 & 0x01 == 0 && 0x02u8 & 0x02 != 0) by (bit_vector);
    let body = relayed.subrange(24, relayed.len() as int);
    assert(body =~= sent.subrange(24, transmission.length as int));
    assert(body[0] == sent.subrange(24, 30)[0]);
    assert(body[1] == sent.subrange(24, 30)[1]);
    assert(body[2] == sent.subrange(24, 30)[2]);
    unprotected_data_is_delivered(receiver, after_receiver, relayed, capacity, delivery);
    assert(destination_bytes(relayed) =~= msdu.subrange(0, 6));
    assert(source_bytes(relayed) =~= own);
    assert(body.subrange(6, body.len() as int) =~= sent.subrange(30, msdu.len() as int + 18));
}

/// Nothing is made up: what is delivered of a frame with one MSDU is that MSDU, and a body without SNAP
/// header, a frame without a body or one that does not fit lead to nothing. Where an MSDU of an
/// aggregate cannot be delivered, those behind it are not either.
pub proof fn nothing_is_delivered_of_other_frames(
    before: StaTxRx,
    after: StaTxRx,
    frame: Seq<u8>,
    capacity: nat,
    delivery: Delivery,
    aggregate: Seq<u8>,
)
    requires
        frame.len() >= 24,
        frame[0] & 0x0c == 0x08,
        data_handled(before, after, frame, capacity, delivery),
    ensures
        frame[0] & 0x40 != 0 ==> delivery.frames@.len() == 0 && after == before,
        has_data_bytes(frame) && frame[1] & 0x40 == 0 && !aggregate_bytes(frame) && (!snap_bytes(
            frame.subrange(header_bytes(frame), frame.len() as int),
        ) || frame.len() - header_bytes(frame) + 6 > capacity) ==> delivery.frames@.len() == 0,
        aggregate.len() >= 14 && 14 + le_value(aggregate.subrange(12, 14)) <= aggregate.len()
            && !snap_bytes(
            aggregate.subrange(14, 14 + le_value(aggregate.subrange(12, 14)) as int),
        ) ==> amsdu_delivery(aggregate, capacity) == (Seq::<Seq<u8>>::empty(), false),
{
    assert(delivery.contents().len() == delivery.frames@.len());
    let control = frame[0];
    assert(control & 0x0c == 0x08 && control & 0x40 != 0 ==> !(control >> 4 < 4 || 8 <= control >> 4
        && control >> 4 < 12)) by (bit_vector);
    if has_data_bytes(frame) {
        lemma_data_bytes(frame);
    }
}

/// Every data frame without protection that holds one MSDU can be handled, and so can every protected one
/// with a whole CCMP header that announces an extended IV. Only aggregates have to be padded.
pub proof fn ordinary_frames_can_be_handled(sta_tx_rx: StaTxRx, frame: Seq<u8>, capacity: nat)
    requires
        has_data_bytes(frame),
        !aggregate_bytes(frame),
        frame[1] & 0x40 != 0 ==> header_bytes(frame) + 8 <= frame.len() && frame[header_bytes(frame)
            + 3] & 0x20 != 0,
    ensures
        is_well_formed(sta_tx_rx, frame, capacity),
{
    lemma_data_bytes(frame);
}

/// Bodies without protection pass whatever came before. A protected one passes only if its packet
/// number is above every one that was accepted under its key, and that key's number is then the only
/// thing that changes: the same number does not pass again.
pub proof fn bodies_pass_once<'a>(
    before: StaTxRx,
    after: StaTxRx,
    is_group: bool,
    key_id: u8,
    body: DataBody<'a>,
    payload: Option<DataBody<'a>>,
)
    requires
        body_passed(before, after, is_group, key_id, body, payload),
    ensures
        body.packet_number is None ==> payload == Some(body) && after == before,
        payload is None ==> after == before,
        payload matches Some(passed) ==> passed == body,
        body.packet_number matches Some(number) ==> {
            &&& before.crypto_state is None ==> payload is None
            &&& before.crypto_state matches Some(keys) ==> {
                let associations = keys.security_associations;
                &&& !is_group ==> {
                    &&& payload is Some <==> number > associations.ptksa.replay_counter
                    &&& payload is Some ==> after.crypto_state->Some_0
                        .security_associations.ptksa.replay_counter == number
                }
                &&& is_group && key_id < 4 && associations.group_keys@[key_id as int] is None
                    ==> payload is None
                &&& is_group && key_id < 4 ==> (associations.group_keys@[key_id as int] matches Some(
                    key,
                ) ==> (payload is Some <==> number > key.replay_counter))
                &&& is_group && key_id >= 4 ==> payload is None
            }
        },
        body.packet_number is Some && payload is Some ==> forall|later: StaTxRx|
            !#[trigger] body_passed(after, later, is_group, key_id, body, Some(body)),
{
}

} // verus!

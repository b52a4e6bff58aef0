//! Reception of frames.
use vstd::prelude::*;

use crate::awdl::action_frame::{
    is_awdl_action, is_vendor_action, parse_awdl_action, parse_vendor_action, vendor_oui,
    vendor_payload, ActionFrame,
};
use crate::awdl::peer::AwdlPeer;
use crate::awdl::peer_cache::{AwdlPeerCache, CachedPeer};
use crate::awdl::state::{AwdlEvent, CommonResources};
use crate::awdl::{hw_address_to_ipv6, link_local_address, APPLE_OUI, PEER_CACHE_SIZE};
use crate::bytes::{be_bytes, be_value, bytes_equal, overwrite, write_bytes};
use crate::frame::{
    body_offset, destination_of, frame_subtype, has_flag, is_amsdu, is_data_frame,
    lemma_header_addresses, open_body, parse_data_frame, source_of, subtype_has_payload,
    FLAG_PROTECTED,
};
use crate::mac::MACAddress;
use crate::msdu::{is_snap, parse_llc};
use awdl_frame_parser::data_frame::AWDLDataFrame;
use ieee80211::scroll::Pread;
use smoltcp::phy::ChecksumCapabilities;
use smoltcp::wire::{
    EthernetAddress, EthernetFrame, EthernetProtocol, Icmpv6Packet, Icmpv6Repr, IpProtocol,
    Ipv6Address, Ipv6Packet, NdiscNeighborFlags, NdiscRepr, RawHardwareAddress,
};

verus! {

/// The resources after an action frame from a peer that was known at `index`: what is known about
/// the peer is updated, and if it is our master we follow it.
pub open spec fn is_after_known_peer(
    after: CommonResources,
    before: CommonResources,
    index: int,
    transmitter: [u8; 6],
    action_frame: ActionFrame,
    rx_timestamp: u64,
    now: u64,
) -> bool {
    let peer = after.peer_cache.peers@[index].peer;
    let updated = CommonResources { peer_cache: after.peer_cache, ..before };
    &&& after.peer_cache.peers@ == before.peer_cache.peers@.update(
        index,
        CachedPeer { address: before.peer_cache.peers@[index].address, peer },
    )
    &&& peer.is_updated_by(before.peer_cache.peers@[index].peer, action_frame, rx_timestamp, now)
    &&& after == if before.election_state.master()@ == transmitter@ {
        updated.following(transmitter, peer)
    } else {
        updated
    }
}

/// What is told about a known peer after an action frame: a service that was discovered.
pub open spec fn service_event(before: AwdlPeer, after: AwdlPeer, address: [u8; 6]) -> Option<
    AwdlEvent,
> {
    if after.airplay_port != before.airplay_port || after.airdrop_port != before.airdrop_port {
        Some(
            AwdlEvent::DiscoveredServiceForPeer {
                address,
                airdrop_port: after.airdrop_port,
                airplay_port: after.airplay_port,
            },
        )
    } else {
        None
    }
}

/// The resources after an action frame from a new peer: it is added if there is room, and a
/// master is elected then.
pub open spec fn is_after_new_peer(
    after: CommonResources,
    before: CommonResources,
    our_address: [u8; 6],
    transmitter: [u8; 6],
    action_frame: ActionFrame,
    rx_timestamp: u64,
    now: u64,
) -> bool {
    if before.peer_cache.peers@.len() < PEER_CACHE_SIZE {
        exists|peer_cache: AwdlPeerCache|
            {
                &&& peer_cache.peers@.len() == before.peer_cache.peers@.len() + 1
                &&& peer_cache.peers@.drop_last() == before.peer_cache.peers@
                &&& peer_cache.peers@.last().address == transmitter
                &&& peer_cache.peers@.last().peer.is_introduced_by(action_frame, rx_timestamp, now)
                &&& after == (#[trigger] added_peer(before, peer_cache)).elected(our_address)
            }
    } else {
        &&& after.peer_cache.peers@ == before.peer_cache.peers@
        &&& after == added_peer(before, after.peer_cache)
    }
}

/// The resources with another peer cache.
pub open spec fn added_peer(before: CommonResources, peer_cache: AwdlPeerCache) -> CommonResources {
    CommonResources { peer_cache, ..before }
}

/// What an action frame leads to: a known peer is updated, a new one is introduced if the frame tells
/// enough, and else nothing happens.
pub open spec fn action_frame_processed(
    before: CommonResources,
    after: CommonResources,
    our_address: [u8; 6],
    transmitter: [u8; 6],
    action_frame: ActionFrame,
    rx_timestamp: u64,
    now: u64,
    event: Option<AwdlEvent>,
) -> bool {
    if before.peer_cache.contains(transmitter@) {
        exists|index: int|
            {
                &&& #[trigger] before.peer_cache.is_at(index, transmitter@)
                &&& is_after_known_peer(
                    after,
                    before,
                    index,
                    transmitter,
                    action_frame,
                    rx_timestamp,
                    now,
                )
                &&& event == service_event(
                    before.peer_cache.peers@[index].peer,
                    after.peer_cache.peers@[index].peer,
                    transmitter,
                )
            }
    } else if action_frame.tells_synchronization() && action_frame.tells_election() {
        &&& event == Some(AwdlEvent::PeerDiscovered(transmitter))
        &&& is_after_new_peer(
            after,
            before,
            our_address,
            transmitter,
            action_frame,
            rx_timestamp,
            now,
        )
    } else {
        event is None && after == before
    }
}

/// Process an action frame that was received at `rx_timestamp`, and tell what is to be reported.
///
/// A peer that is not known yet is introduced if the frame tells how it is synchronized and whom
/// it follows. It is reported even if there is no room for it.
pub fn process_action_frame(
    resources: &mut CommonResources,
    our_address: &[u8; 6],
    transmitter: &[u8; 6],
    action_frame: &ActionFrame,
    rx_timestamp: u64,
    now: u64,
) -> (event: Option<AwdlEvent>)
    requires
        old(resources).wf(),
        action_frame.is_readable(),
        old(resources).peer_cache.contains(transmitter@) ==> action_frame.has_readable_services(),
    ensures
        final(resources).wf(),
        action_frame_processed(
            *old(resources),
            *final(resources),
            *our_address,
            *transmitter,
            *action_frame,
            rx_timestamp,
            now,
            event,
        ),
{
    let ghost before = *resources;
    match resources.peer_cache.find(transmitter) {
        Some(index) => {
            let service_discovered = resources.peer_cache.peers[index].peer.update(
                action_frame,
                rx_timestamp,
                now,
            );
            let peer = resources.peer_cache.peers[index].peer;
            let event = if service_discovered {
                Some(
                    AwdlEvent::DiscoveredServiceForPeer {
                        address: *transmitter,
                        airdrop_port: peer.airdrop_port,
                        airplay_port: peer.airplay_port,
                    },
                )
            } else {
                None
            };
            assert(resources.peer_cache.peers@ =~= before.peer_cache.peers@.update(
                index as int,
                CachedPeer { address: before.peer_cache.peers@[index as int].address, peer },
            ));
            // If the peer is our master, we resynchronize to it, so timing error remains small.
            if resources.is_peer_master(transmitter) {
                resources.adopt_peer_as_master(transmitter, &peer);
            }
            assert(before.peer_cache.is_at(index as int, transmitter@));
            event
        },
        None => match AwdlPeer::new_with_action_frame(action_frame, rx_timestamp, now) {
            Some(peer) => {
                if resources.peer_cache.add(*transmitter, peer) {
                    let ghost cache = resources.peer_cache;
                    assert(cache.peers@.drop_last() =~= before.peer_cache.peers@);
                    assert(*resources == added_peer(before, cache));
                    resources.elect_master(our_address);
                } else {
                    assert(resources.peer_cache.peers@ == before.peer_cache.peers@);
                }
                Some(AwdlEvent::PeerDiscovered(*transmitter))
            },
            None => None,
        },
    }
}

/// An MSDU that was received.
pub struct AwdlMsdu {
    pub source_address: MACAddress,
    pub destination_address: MACAddress,
    /// Protocol of the payload.
    pub ether_type: u16,
    /// The payload.
    pub payload: Vec<u8>,
}

/// Whether the payload of an LLC frame is an AWDL data frame.
pub open spec fn is_awdl_data(bytes: Seq<u8>) -> bool {
    bytes.len() >= 8 && bytes[0] == 3 && bytes[1] == 4
}

/// Parse an AWDL data frame: get the protocol and the payload.
///
/// Calls `pread::<awdl_frame_parser::data_frame::AWDLDataFrame>`: the protocol stands behind a
/// sequence number and two reserved bytes.
#[verifier::external_body]
fn parse_awdl_data(bytes: &[u8]) -> (frame: Option<(u16, Vec<u8>)>)
    ensures
        frame is Some == is_awdl_data(bytes@),
        frame matches Some(frame) ==> {
            &&& frame.0 == be_value(bytes@.subrange(6, 8))
            &&& frame.1@ == bytes@.subrange(8, bytes@.len() as int)
        },
{
    let frame = bytes.pread::<AWDLDataFrame<&[u8]>>(0).ok()?;
    Some((frame.ether_type.into_bits(), frame.payload.to_vec()))
}

/// Whether a frame carries an MSDU for us: it is not protected, not an aggregate, and its LLC
/// header says that there is an AWDL data frame behind it.
pub open spec fn carries_awdl_msdu(frame: Seq<u8>) -> bool {
    let body = frame.subrange(body_offset(frame), frame.len() as int);
    &&& is_data_frame(frame)
    &&& subtype_has_payload(frame_subtype(frame))
    &&& destination_of(frame) is Some
    &&& source_of(frame) is Some
    &&& !has_flag(frame, FLAG_PROTECTED)
    &&& !is_amsdu(frame)
    &&& is_snap(body)
    &&& body.subrange(3, 6) == APPLE_OUI@
    &&& is_awdl_data(body.subrange(8, body.len() as int))
}

impl AwdlMsdu {
    /// Whether this is the MSDU in a frame.
    pub open spec fn stands_in(&self, frame: Seq<u8>) -> bool {
        let body = frame.subrange(body_offset(frame), frame.len() as int);
        &&& destination_of(frame) == Some(self.destination_address@)
        &&& source_of(frame) == Some(self.source_address@)
        &&& self.ether_type == be_value(body.subrange(14, 16))
        &&& self.payload@ == body.subrange(16, body.len() as int)
    }
}

/// Process a data frame: get the MSDU.
pub fn process_data_frame(frame: &[u8]) -> (msdu: Option<AwdlMsdu>)
    ensures
        msdu is Some == carries_awdl_msdu(frame@),
        msdu matches Some(msdu) ==> msdu.stands_in(frame@),
{
    let header = match parse_data_frame(frame) {
        Some(header) => header,
        None => return None,
    };
    proof {
        lemma_header_addresses(header, frame@);
    }
    let destination_address = match header.destination_address() {
        Some(address) => address,
        None => return None,
    };
    let source_address = match header.source_address() {
        Some(address) => address,
        None => return None,
    };
    if header.protected() || header.is_amsdu() {
        return None;
    }
    let body = match open_body(frame) {
        Some(body) => body,
        None => return None,
    };
    let llc_frame = match parse_llc(body.payload) {
        Some(llc_frame) => llc_frame,
        None => return None,
    };
    if !bytes_equal(&llc_frame.oui, &APPLE_OUI) {
        return None;
    }
    match parse_awdl_data(&llc_frame.payload) {
        Some((ether_type, payload)) => {
            proof {
                let content = body.payload@;
                assert(content.subrange(8, content.len() as int).subrange(6, 8) =~= content.subrange(
                    14,
                    16,
                ));
                assert(content.subrange(8, content.len() as int).subrange(8, content.len() - 8)
                    =~= content.subrange(16, content.len() as int));
            }
            Some(AwdlMsdu { source_address, destination_address, ether_type, payload })
        },
        None => None,
    }
}

/// What a frame holds.
pub enum RxFrame {
    /// An action frame, and who sent it.
    Action(MACAddress, ActionFrame),
    /// An MSDU.
    Msdu(AwdlMsdu),
    /// Nothing for us.
    Ignored,
}

/// Whether a frame is an AWDL action frame.
pub open spec fn carries_awdl_action(frame: Seq<u8>) -> bool {
    is_vendor_action(frame) && vendor_oui(frame) == APPLE_OUI@ && is_awdl_action(
        vendor_payload(frame),
    )
}

/// Whether `received` is what a frame holds.
pub open spec fn is_recognized(frame: Seq<u8>, received: RxFrame) -> bool {
    match received {
        RxFrame::Action(transmitter, action_frame) => {
            &&& carries_awdl_action(frame)
            &&& transmitter@ == frame.subrange(10, 16)
            &&& action_frame.stands_in(vendor_payload(frame))
        },
        RxFrame::Msdu(msdu) => {
            &&& !is_vendor_action(frame)
            &&& carries_awdl_msdu(frame)
            &&& msdu.stands_in(frame)
        },
        RxFrame::Ignored => {
            &&& !carries_awdl_action(frame)
            &&& is_vendor_action(frame) || !carries_awdl_msdu(frame)
        },
    }
}

/// Process a received frame: find out what it holds.
pub fn process_frame(frame: &[u8]) -> (received: RxFrame)
    ensures
        is_recognized(frame@, received),
{
    match parse_vendor_action(frame) {
        Some(action) => {
            if !bytes_equal(&action.oui, &APPLE_OUI) {
                return RxFrame::Ignored;
            }
            match parse_awdl_action(&action.payload) {
                Some(action_frame) => RxFrame::Action(action.transmitter, action_frame),
                None => RxFrame::Ignored,
            }
        },
        None => match process_data_frame(frame) {
            Some(msdu) => RxFrame::Msdu(msdu),
            None => RxFrame::Ignored,
        },
    }
}

/// Write an Ethernet header.
///
/// Calls `set_dst_addr`, `set_src_addr` and `set_ethertype` of `smoltcp::wire::EthernetFrame`.
#[verifier::external_body]
fn emit_ethernet_header(buffer: &mut [u8], dst: [u8; 6], src: [u8; 6], ether_type: u16)
    requires
        old(buffer)@.len() >= 14,
    ensures
        final(buffer)@ == overwrite(
            old(buffer)@,
            0,
            dst@ + src@ + be_bytes(ether_type as nat, 2),
        ),
{
    let mut frame = EthernetFrame::new_unchecked(buffer);
    frame.set_dst_addr(EthernetAddress(dst));
    frame.set_src_addr(EthernetAddress(src));
    frame.set_ethertype(EthernetProtocol::from(ether_type));
}

/// Write an MSDU as an Ethernet frame. Returns its length, or nothing if it does not fit; the
/// header is written all the same.
pub fn serialize_ethernet_frame(
    buffer: &mut [u8],
    src: [u8; 6],
    dst: [u8; 6],
    ether_type: u16,
    payload: &[u8],
) -> (written: Option<usize>)
    requires
        old(buffer)@.len() >= 14,
    ensures
        written == if 14 + payload@.len() <= old(buffer)@.len() {
            Some((14 + payload@.len()) as usize)
        } else {
            None
        },
        final(buffer)@ == overwrite(
            old(buffer)@,
            0,
            dst@ + src@ + be_bytes(ether_type as nat, 2) + if written is Some {
                payload@
            } else {
                seq![]
            },
        ),
{
    let ghost was = buffer@;
    let ghost header = dst@ + src@ + be_bytes(ether_type as nat, 2);
    proof {
        crate::bytes::lemma_be_bytes_length(ether_type as nat, 2);
    }
    emit_ethernet_header(buffer, dst, src, ether_type);
    if payload.len() > buffer.len() - 14 {
        assert(header + seq![] =~= header);
        return None;
    }
    write_bytes(buffer, 14, payload);
    assert(buffer@ =~= overwrite(was, 0, header + payload@));
    Some(14 + payload.len())
}

/// The sum of the 16 bit words in a sequence of even length.
pub open spec fn word_sum(bytes: Seq<u8>) -> nat
    decreases bytes.len(),
{
    if bytes.len() < 2 {
        0
    } else {
        be_value(bytes.subrange(0, 2)) + word_sum(bytes.subrange(2, bytes.len() as int))
    }
}

/// The Internet checksum of bytes that are not all zero: what completes the sum of their words to
/// a multiple of 65535.
pub open spec fn internet_checksum(bytes: Seq<u8>) -> nat {
    (65534 - (word_sum(bytes) - 1) % 65535) as nat
}

/// A neighbor advertisement, with a link layer address, up to its checksum and behind it.
pub open spec fn neighbor_advertisement(
    checksum: nat,
    flags: u8,
    target: Seq<u8>,
    lladdr: Seq<u8>,
) -> Seq<u8> {
    seq![136u8, 0] + be_bytes(checksum, 2) + seq![flags, 0, 0, 0] + target + seq![2u8, 1] + lladdr
}

/// Make a neighbor advertisement.
///
/// Calls `smoltcp::wire::Icmpv6Repr::emit` for a neighbor advertisement with the address of its
/// sender as target. The checksum is that of the addresses, the protocol, the length and the
/// advertisement with a checksum of zero. Of the flags, the upper three bits are written.
#[verifier::external_body]
fn emit_neighbor_advertisement(
    src: [u8; 16],
    dst: [u8; 16],
    lladdr: [u8; 6],
    flags: u8,
) -> (advertisement: [u8; 32])
    ensures
        advertisement@ == neighbor_advertisement(
            internet_checksum(
                src@ + dst@ + seq![0u8, 58, 0, 32] + neighbor_advertisement(
                    0,
                    flags & 0xe0,
                    src@,
                    lladdr@,
                ),
            ),
            flags & 0xe0,
            src@,
            lladdr@,
        ),
{
    let (src, dst) = (Ipv6Address::from(src), Ipv6Address::from(dst));
    let advertisement = Icmpv6Repr::Ndisc(NdiscRepr::NeighborAdvert {
        flags: NdiscNeighborFlags::from_bits_truncate(flags),
        target_addr: src,
        lladdr: Some(RawHardwareAddress::from_bytes(&lladdr)),
    });
    let mut bytes = [0; 32];
    let mut packet = Icmpv6Packet::new_unchecked(&mut bytes);
    advertisement.emit(&src, &dst, &mut packet, &ChecksumCapabilities::default());
    bytes
}

/// An IPv6 header where `was` stood before. Traffic class and flow label are left as they were.
pub open spec fn ipv6_header(
    payload_len: u16,
    next_header: u8,
    hop_limit: u8,
    src: Seq<u8>,
    dst: Seq<u8>,
    was: Seq<u8>,
) -> Seq<u8> {
    seq![(was[0] & 0x0f) | 0x60, was[1], was[2], was[3]] + be_bytes(payload_len as nat, 2) + seq![
        next_header,
        hop_limit,
    ] + src + dst
}

/// Write an IPv6 header.
///
/// Calls `set_version`, `set_next_header`, `set_src_addr`, `set_dst_addr`, `set_hop_limit` and
/// `set_payload_len` of `smoltcp::wire::Ipv6Packet`.
#[verifier::external_body]
fn emit_ipv6_header(
    buffer: &mut [u8],
    payload_len: u16,
    next_header: u8,
    hop_limit: u8,
    src: [u8; 16],
    dst: [u8; 16],
)
    requires
        old(buffer)@.len() >= 40,
    ensures
        final(buffer)@ == overwrite(
            old(buffer)@,
            0,
            ipv6_header(payload_len, next_header, hop_limit, src@, dst@, old(buffer)@),
        ),
{
    let mut packet = Ipv6Packet::new_unchecked(buffer);
    packet.set_version(6);
    packet.set_next_header(IpProtocol::from(next_header));
    packet.set_src_addr(Ipv6Address::from(src));
    packet.set_dst_addr(Ipv6Address::from(dst));
    packet.set_hop_limit(hop_limit);
    packet.set_payload_len(payload_len);
}

/// An Ethernet frame by which a peer seems to tell us its address, where `was` stood before.
pub open spec fn injected_frame(own_address: Seq<u8>, peer_address: Seq<u8>, was: Seq<u8>) -> Seq<
    u8,
> {
    let src = link_local_address(peer_address);
    let dst = link_local_address(own_address);
    own_address + peer_address + be_bytes(0x86dd, 2) + ipv6_header(
        32,
        58,
        255,
        src,
        dst,
        was.subrange(14, 54),
    ) + neighbor_advertisement(
        internet_checksum(
            src + dst + seq![0u8, 58, 0, 32] + neighbor_advertisement(0, 0x40, src, peer_address),
        ),
        0x40,
        src,
        peer_address,
    )
}

/// Make up the neighbor advertisement of a peer, so that it does not have to be asked. Returns the
/// length of the frame, or nothing if the peer isn't in cache.
pub fn inject_neighbor(
    resources: &CommonResources,
    own_address: &[u8; 6],
    peer_address: &[u8; 6],
    buffer: &mut [u8],
) -> (written: Option<usize>)
    requires
        old(buffer)@.len() >= 86,
    ensures
        written == if resources.peer_cache.contains(peer_address@) {
            Some(86usize)
        } else {
            None
        },
        final(buffer)@ == if written is Some {
            overwrite(
                old(buffer)@,
                0,
                injected_frame(own_address@, peer_address@, old(buffer)@),
            )
        } else {
            old(buffer)@
        },
{
    if !resources.is_peer_cached(peer_address) {
        return None;
    }
    let src_addr = hw_address_to_ipv6(peer_address);
    let dst_addr = hw_address_to_ipv6(own_address);
    let ghost was = buffer@;
    emit_ethernet_header(buffer, *own_address, *peer_address, 0x86dd);
    let ghost framed = buffer@;
    let (_, packet) = buffer.split_at_mut(14);
    emit_ipv6_header(packet, 32, 58, 255, src_addr, dst_addr);
    let advertisement = emit_neighbor_advertisement(src_addr, dst_addr, *peer_address, 0x40);
    write_bytes(buffer, 54, &advertisement);
    proof {
        crate::bytes::lemma_be_bytes_length(0x86dd, 2);
        crate::bytes::lemma_be_bytes_length(32, 2);
    }
    assert(0x40u8 & 0xe0 == 0x40) by (bit_vector);
    proof {
        let ethernet = own_address@ + peer_address@ + be_bytes(0x86dd, 2);
        let ip = ipv6_header(32, 58, 255, src_addr@, dst_addr@, was.subrange(14, 54));
        let advertised = advertisement@;
        assert(ip =~= ipv6_header(
            32,
            58,
            255,
            src_addr@,
            dst_addr@,
            framed.subrange(14, framed.len() as int),
        ));
        assert(injected_frame(own_address@, peer_address@, was) =~= ethernet + ip + advertised);
        assert(buffer@ =~= overwrite(was, 0, ethernet + ip + advertised));
    }
    Some(86)
}

} // verus!

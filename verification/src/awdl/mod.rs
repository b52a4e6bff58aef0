//! An Apple Wireless Direct Link (AWDL) interface.
//!
//! AWDL is a wireless P2P protocol, that allows Apple devices to communicate directly. Time is cut
//! into slots, and peers meet in the slots in which they listen on the same channel. For that,
//! they elect a master and follow its clock.
use vstd::prelude::*;

use crate::awdl::control::AwdlControl;
use crate::bg_task::RxEndpoint;
use crate::radio::{RxFilterBank, RxInterface, ScanningMode, INTERFACE_COUNT};
use crate::stack::{FoAResources, VirtualInterface};

pub mod action_frame;
pub mod control;
pub mod laws;
pub mod peer;
pub mod peer_cache;
pub mod runner;
pub mod state;
pub mod tlv;

verus! {

/// Address of the network that all AWDL frames are sent in.
pub const AWDL_BSSID: [u8; 6] = [0x00, 0x25, 0x00, 0xff, 0x94, 0x73];

/// Identifier of the organization that AWDL frames are marked with.
pub const APPLE_OUI: [u8; 3] = [0x00, 0x17, 0xf2];

/// The maximum transmission unit of the AWDL interface.
pub const AWDL_MTU: usize = 1484;

/// The channel on which the interface operates.
pub const AWDL_CHANNEL: u8 = 6;

/// How many peers are remembered.
pub const PEER_CACHE_SIZE: usize = 16;

/// Errors that can occur with the AWDL interface.
#[derive(Clone, Copy, Debug, PartialEq, Eq, PartialOrd, Ord, Hash, Structural)]
pub enum AwdlError {
    /// Acquiring the LMAC channel lock failed.
    FailedToAcquireChannelLock,
}

/// The octets of the link local IPv6 address that belongs to a MAC address: the address with its
/// universal/local bit inverted, and `ff:fe` in the middle.
pub open spec fn link_local_address(address: Seq<u8>) -> Seq<u8> {
    seq![0xfeu8, 0x80, 0, 0, 0, 0, 0, 0] + seq![
        address[0] ^ 2,
        address[1],
        address[2],
        0xff,
        0xfe,
        address[3],
        address[4],
        address[5],
    ]
}

/// Convert a MAC address to a link local IPv6 address.
pub fn hw_address_to_ipv6(address: &[u8; 6]) -> (ipv6: [u8; 16])
    ensures
        ipv6@ == link_local_address(address@),
{
    let ipv6 = [
        0xfe,
        0x80,
        0,
        0,
        0,
        0,
        0,
        0,
        address[0] ^ 2,
        address[1],
        address[2],
        0xff,
        0xfe,
        address[3],
        address[4],
        address[5],
    ];
    assert(ipv6@ =~= link_local_address(address@));
    ipv6
}

/// The octets of the MAC address that a link local IPv6 address was made of.
pub open spec fn embedded_address(ipv6: Seq<u8>) -> Seq<u8> {
    seq![ipv6[8] ^ 2, ipv6[9], ipv6[10], ipv6[13], ipv6[14], ipv6[15]]
}

/// Convert a link local IPv6 address to a MAC address.
pub fn ipv6_to_hw_address(ipv6: &[u8; 16]) -> (address: [u8; 6])
    ensures
        address@ == embedded_address(ipv6@),
{
    let address = [ipv6[8] ^ 2, ipv6[9], ipv6[10], ipv6[13], ipv6[14], ipv6[15]];
    assert(address@ =~= embedded_address(ipv6@));
    address
}

/// A MAC address can be recovered from the IPv6 address that was made of it.
pub proof fn link_local_address_round_trip(address: Seq<u8>)
    requires
        address.len() == 6,
    ensures
        embedded_address(link_local_address(address)) == address,
{
    let first = address[0];
    assert((first ^ 2u8) ^ 2u8 == first) by (bit_vector);
    assert(embedded_address(link_local_address(address)) =~= address);
}

/// Initialize an AWDL interface, on a chip with the given base MAC address.
///
/// You'll get a control interface, the receive endpoint, and the handles of frames that were still
/// in the receive queue, so that the frames can be given back.
pub fn new_awdl_interface(
    virtual_interface: &mut VirtualInterface,
    resources: &mut FoAResources,
    base_mac: [u8; 6],
) -> (parts: (AwdlControl, RxEndpoint, Vec<usize>))
    requires
        old(virtual_interface).wf(),
        old(resources).wf(),
        base_mac@[5] + old(virtual_interface).interface_control.interface <= u8::MAX,
    ensures
        *final(virtual_interface) == *old(virtual_interface),
        final(resources).wf(),
        parts.0.channel == AWDL_CHANNEL,
        ({
            let interface = old(virtual_interface).interface_control.interface;
            &&& parts.0.mac_address@ == base_mac@.update(5, (base_mac@[5] + interface) as u8)
            &&& parts.1.interface == interface
            &&& parts.2@ == old(resources).rx_queues@[interface as int].queue@
            &&& final(resources).shared_lmac_state.channel_state.is_after_unlock(
                old(resources).shared_lmac_state.channel_state,
                interface,
            )
            &&& final(resources).rx_queues@[interface as int].active
            &&& final(resources).rx_queues@[interface as int].queue@.len() == 0
            &&& final(resources).rx_interfaces@[interface as int] == (RxInterface {
                bssid_filter: Some(AWDL_BSSID),
                receiver_address_filter: None,
                scanning_mode: ScanningMode::Disabled,
            })
            &&& forall|i: int|
                0 <= i < INTERFACE_COUNT && i != interface ==> {
                    &&& #[trigger] final(resources).rx_queues@[i] == old(resources).rx_queues@[i]
                    &&& final(resources).rx_interfaces@[i] == old(resources).rx_interfaces@[i]
                }
        }),
        final(resources).shared_lmac_state.key_slot_manager == old(
            resources,
        ).shared_lmac_state.key_slot_manager,
        final(resources).arc_pool == old(resources).arc_pool,
        final(resources).edca_tx_queues == old(resources).edca_tx_queues,
        final(resources).tx_buffer_manager == old(resources).tx_buffer_manager,
{
    let dropped = virtual_interface.reset(resources);
    let endpoint = virtual_interface.split(resources);
    let interface: usize = virtual_interface.interface_control.interface;
    resources.rx_interfaces[interface].set_filter(RxFilterBank::Bssid, AWDL_BSSID);
    let mac_address = virtual_interface.interface_control.get_factory_mac_for_interface(base_mac);
    assert(resources.rx_interfaces@[interface as int] == (RxInterface {
        bssid_filter: Some(AWDL_BSSID),
        receiver_address_filter: None,
        scanning_mode: ScanningMode::Disabled,
    }));
    assert forall|i: int| 0 <= i < INTERFACE_COUNT && i != interface implies {
        &&& #[trigger] resources.rx_queues@[i] == old(resources).rx_queues@[i]
        &&& resources.rx_interfaces@[i] == old(resources).rx_interfaces@[i]
    } by {}
    (AwdlControl { channel: AWDL_CHANNEL, mac_address }, endpoint, dropped)
}

} // verus!

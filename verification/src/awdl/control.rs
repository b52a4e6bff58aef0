//! Control over the interface.
use vstd::prelude::*;

use crate::awdl::peer_cache::CachedPeer;
use crate::awdl::state::{AwdlState, CommonResources};
use crate::awdl::{hw_address_to_ipv6, link_local_address, AwdlError, AWDL_BSSID};
use crate::lmac::{
    unlock_undoes_lock, ChannelState, InterfaceBringupOperation, LMacError, LMacInterfaceControl,
    SharedLMacState,
};
use crate::radio::{RxFilterBank, RxInterface, INTERFACE_COUNT};

verus! {

/// Control interface for the AWDL interface.
#[derive(Clone, Copy, Debug)]
pub struct AwdlControl {
    /// The channel on which sessions take place.
    pub channel: u8,
    /// The MAC address of the interface.
    pub mac_address: [u8; 6],
}

impl AwdlControl {
    /// Set and enable all filters required for the interface.
    pub fn enable_filters(&self, rx_interface: &mut RxInterface)
        ensures
            *final(rx_interface) == (RxInterface {
                bssid_filter: Some(AWDL_BSSID),
                receiver_address_filter: Some(self.mac_address),
                ..*old(rx_interface)
            }),
    {
        rx_interface.set_filter(RxFilterBank::Bssid, AWDL_BSSID);
        rx_interface.set_filter(RxFilterBank::ReceiverAddress, self.mac_address);
    }

    /// Disable all filter for the interface.
    pub fn disable_filters(&self, rx_interface: &mut RxInterface)
        ensures
            *final(rx_interface) == (RxInterface {
                bssid_filter: None,
                receiver_address_filter: None,
                ..*old(rx_interface)
            }),
    {
        rx_interface.clear_filter(RxFilterBank::Bssid);
        rx_interface.clear_filter(RxFilterBank::ReceiverAddress);
    }

    /// Start an AWDL session: acquire the channel.
    ///
    /// Any off channel operation has to be waited for, before the session is completed with
    /// [AwdlControl::finish_start].
    pub fn start(&self, interface_control: &LMacInterfaceControl, state: &mut SharedLMacState)
        -> (operation: Result<InterfaceBringupOperation, AwdlError>)
        requires
            interface_control.wf(),
            old(state).channel_state.wf(),
        ensures
            final(state).channel_state.wf(),
            final(state).key_slot_manager == old(state).key_slot_manager,
            exists|locked: Result<(), LMacError>|
                {
                    &&& #[trigger] final(state).channel_state.is_after_acquire(
                        old(state).channel_state,
                        interface_control.interface,
                        self.channel,
                        locked,
                    )
                    &&& operation is Ok == locked is Ok
                },
            operation matches Ok(operation) ==> operation.interface == interface_control.interface,
            operation matches Err(error) ==> error == AwdlError::FailedToAcquireChannelLock,
    {
        match interface_control.begin_interface_bringup_operation(state, self.channel) {
            Ok(operation) => Ok(operation),
            Err(_) => Err(AwdlError::FailedToAcquireChannelLock),
        }
    }

    /// Complete the start of an AWDL session: open the filters, and get the state to signal to the
    /// runner.
    ///
    /// If a session is already in progress, it will be immediately aborted and the new session
    /// takes over.
    pub fn finish_start(
        &self,
        operation: InterfaceBringupOperation,
        state: &mut SharedLMacState,
        rx_interface: &mut RxInterface,
    ) -> (signaled: AwdlState)
        ensures
            *final(state) == *old(state),
            session_started(*self, *old(rx_interface), *final(rx_interface), signaled),
    {
        self.enable_filters(rx_interface);
        operation.complete(state);
        AwdlState::Active { our_address: self.mac_address, channel: self.channel }
    }

    /// Stop the currently active AWDL session, and get the state to signal to the runner.
    ///
    /// If no session is in progress, this won't do anything. There is no state to signal then.
    pub fn stop(
        &self,
        interface_control: &LMacInterfaceControl,
        state: &mut SharedLMacState,
        rx_interface: &mut RxInterface,
    ) -> (signaled: Option<AwdlState>)
        requires
            interface_control.wf(),
            old(state).channel_state.wf(),
        ensures
            final(state).channel_state.wf(),
            final(state).key_slot_manager == old(state).key_slot_manager,
            session_stopped(
                interface_control.interface,
                (*old(state), *old(rx_interface)),
                (*final(state), *final(rx_interface)),
                signaled,
            ),
    {
        if !interface_control.holds_channel(state) {
            return None;
        }
        interface_control.unlock_channel(state);
        self.disable_filters(rx_interface);
        Some(AwdlState::Inactive)
    }

    /// Set the timeout for a peer to count as stale and be purged from the peer cache, in
    /// microseconds.
    ///
    /// The timeout specifies the threshold for when a peer counts as stale. If no frame was
    /// received from a peer within that threshold, the peer will count as stale and be removed.
    /// The change will take effect after the previous timeout duration has passed.
    pub fn set_peer_stale_timeout(&self, resources: &mut CommonResources, timeout: u64)
        requires
            old(resources).wf(),
        ensures
            final(resources).wf(),
            final(resources).dynamic_session_parameters.stale_peer_timeout == timeout,
            final(resources).dynamic_session_parameters.country_code == old(
                resources,
            ).dynamic_session_parameters.country_code,
            *final(resources) == (CommonResources {
                dynamic_session_parameters: final(resources).dynamic_session_parameters,
                ..*old(resources)
            }),
    {
        resources.dynamic_session_parameters.stale_peer_timeout = timeout;
    }

    /// Set the MAC address of the interface.
    ///
    /// This will only take effect after restarting the interface.
    pub fn set_mac_address(&mut self, mac_address: [u8; 6])
        ensures
            *final(self) == (AwdlControl { mac_address, ..*old(self) }),
    {
        self.mac_address = mac_address;
    }

    /// Get the MAC address of the interface.
    pub fn mac_address(&self) -> (mac_address: [u8; 6])
        ensures
            mac_address == self.mac_address,
    {
        self.mac_address
    }

    /// Randomize the MAC address, with the given random bytes. The group bit is cleared.
    ///
    /// This will also return the MAC address.
    pub fn randomize_mac_address(&mut self, random: [u8; 6]) -> (mac_address: [u8; 6])
        ensures
            mac_address@ == random@.update(0, random@[0] & !1),
            *final(self) == (AwdlControl { mac_address, ..*old(self) }),
    {
        let mut mac_address = random;
        mac_address[0] = mac_address[0] & !1;
        self.set_mac_address(mac_address);
        mac_address
    }

    /// Get the IPv6 address of this interface.
    pub fn own_ipv6_addr(&self) -> (ipv6: [u8; 16])
        ensures
            ipv6@ == link_local_address(self.mac_address@),
    {
        hw_address_to_ipv6(&self.mac_address)
    }

    /// Get the peers, that are currently in cache.
    pub fn inspect_peers<'a>(&self, resources: &'a CommonResources) -> (peers: &'a Vec<CachedPeer>)
        ensures
            peers@ == resources.peer_cache.peers@,
    {
        &resources.peer_cache.peers
    }
}

/// What the end of a start leads to: the filters are open, and the session is signaled.
pub open spec fn session_started(
    control: AwdlControl,
    before: RxInterface,
    after: RxInterface,
    signaled: AwdlState,
) -> bool {
    &&& after == (RxInterface {
        bssid_filter: Some(AWDL_BSSID),
        receiver_address_filter: Some(control.mac_address),
        ..before
    })
    &&& signaled == (AwdlState::Active {
        our_address: control.mac_address,
        channel: control.channel,
    })
}

/// What a stop of `interface` leads to: the end of its session, if there is one.
pub open spec fn session_stopped(
    interface: usize,
    before: (SharedLMacState, RxInterface),
    after: (SharedLMacState, RxInterface),
    signaled: Option<AwdlState>,
) -> bool {
    if before.0.channel_state.held_by(interface as int) {
        &&& after.0.channel_state.is_after_unlock(before.0.channel_state, interface)
        &&& after.1 == (RxInterface {
            bssid_filter: None,
            receiver_address_filter: None,
            ..before.1
        })
        &&& signaled == Some(AwdlState::Inactive)
    } else {
        &&& after == before
        &&& signaled is None
    }
}

/// Sessions go by what they are told: a start opens the filters for the session's network and our
/// address and signals both address and channel, a stop closes them, gives the channel up and signals
/// it, and a stop without a session does nothing.
pub proof fn sessions_start_and_stop(
    control: AwdlControl,
    interface: usize,
    filters: (RxInterface, RxInterface),
    started: AwdlState,
    before: (SharedLMacState, RxInterface),
    after: (SharedLMacState, RxInterface),
    stopped: Option<AwdlState>,
)
    requires
        interface < 4,
        session_started(control, filters.0, filters.1, started),
        session_stopped(interface, before, after, stopped),
    ensures
        filters.1.bssid_filter matches Some(bssid) && bssid@ == seq![
            0x00u8, 0x25, 0x00, 0xff, 0x94, 0x73,
        ],
        filters.1.receiver_address_filter == Some(control.mac_address),
        started matches AwdlState::Active { our_address, channel } && our_address
            == control.mac_address && channel == control.channel,
        !after.0.channel_state.held_by(interface as int),
        before.0.channel_state.held_by(interface as int) ==> {
            &&& after.1.bssid_filter is None
            &&& after.1.receiver_address_filter is None
            &&& stopped matches Some(AwdlState::Inactive)
            &&& forall|i: int|
                0 <= i < 4 && i != interface ==> #[trigger] after.0.channel_state.held_by(i)
                    == before.0.channel_state.held_by(i)
        },
        !before.0.channel_state.held_by(interface as int) ==> after == before && stopped is None,
{
}

/// Stopping a session undoes what starting it did: everybody holds the channel as before, and no
/// filter is left behind.
pub proof fn stop_undoes_start(
    control: AwdlControl,
    interface: usize,
    before: ChannelState,
    started: ChannelState,
    stopped: ChannelState,
    filters_before: RxInterface,
    filters_started: RxInterface,
    filters_stopped: RxInterface,
)
    requires
        before.wf(),
        stopped.wf(),
        interface < INTERFACE_COUNT,
        !before.held_by(interface as int),
        started.is_after_acquire(before, interface, control.channel, Ok(())),
        stopped.is_after_unlock(started, interface),
        filters_before.bssid_filter is None,
        filters_before.receiver_address_filter is None,
        filters_started == (RxInterface {
            bssid_filter: Some(AWDL_BSSID),
            receiver_address_filter: Some(control.mac_address),
            ..filters_before
        }),
        filters_stopped == (RxInterface {
            bssid_filter: None,
            receiver_address_filter: None,
            ..filters_started
        }),
    ensures
        forall|i: int|
            0 <= i < INTERFACE_COUNT ==> #[trigger] stopped.held_by(i) == before.held_by(i),
        stopped.spec_home_channel() == before.spec_home_channel(),
        filters_stopped == filters_before,
{
    unlock_undoes_lock(
        before,
        started,
        stopped,
        interface,
        control.channel,
        before.lock_result(interface, control.channel),
    );
}

} // verus!

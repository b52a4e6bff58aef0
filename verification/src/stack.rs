//! The resources of the stack and its interfaces.
//!
//! The stack does not implement any specific operating mode. It is set up by [init], which hands
//! out a set of [VirtualInterface]s for interface implementations, and a [FoARunner].
use vstd::prelude::*;

use crate::bg_task::{RxEndpoint, RxQueue};
use crate::lmac::{LMacInterfaceControl, SharedLMacState};
use crate::radio::{
    EdcaAccessCategory, RxFilterBank, RxInterface, ScanningMode, INTERFACE_COUNT, KEY_SLOT_COUNT,
};
use crate::rx_arc_pool::RxArcPool;
use crate::tx_buffer_management::TxBufferManager;
use crate::tx_queue::{TxEndpoint, TxQueue, TxQueueItem, TxQueueSlot};

verus! {

/// Number of buffers used for the hardware receive queue.
pub const RX_BUFFER_COUNT: usize = 10;
/// Length of the receive queue of an interface.
pub const RX_QUEUE_LEN: usize = 2;
/// Number of buffers preallocated for transmission.
pub const TX_BUFFER_COUNT: usize = 10;
/// The size of a transmit buffer.
///
/// This is fixed, so that interfaces can rely on the size of a transmit buffer.
pub const TX_BUFFER_SIZE: usize = 1600;
/// Number of EDCA queues.
pub const EDCA_QUEUE_COUNT: usize = 4;

/// The resources required by the stack.
pub struct FoAResources {
    /// State of the LMAC.
    pub shared_lmac_state: SharedLMacState,
    /// Receive settings of all interfaces.
    pub rx_interfaces: [RxInterface; 4],
    /// Receive queues of all interfaces.
    pub rx_queues: [RxQueue; 4],
    /// Received frames.
    pub arc_pool: RxArcPool<RX_BUFFER_COUNT>,
    /// All EDCA transmit queues.
    pub edca_tx_queues: [TxQueue<TX_BUFFER_COUNT>; 4],
    /// The transmit buffers.
    pub tx_buffer_manager: TxBufferManager<TX_BUFFER_COUNT, TX_BUFFER_SIZE>,
}

impl FoAResources {
    /// All parts are well formed.
    pub open spec fn wf(&self) -> bool {
        &&& self.shared_lmac_state.channel_state.wf()
        &&& forall|i: int| 0 <= i < INTERFACE_COUNT ==> (#[trigger] self.rx_queues@[i]).wf()
        &&& self.arc_pool.wf()
        &&& forall|i: int| 0 <= i < EDCA_QUEUE_COUNT ==> (#[trigger] self.edca_tx_queues@[i]).wf()
        &&& self.tx_buffer_manager.wf()
    }

    /// Nothing is locked, in use, queued for transmission or pending for the radio.
    pub open spec fn is_fresh(&self) -> bool {
        &&& self.shared_lmac_state.channel_state.locks is None
        &&& self.shared_lmac_state.channel_state.off_channel_operation_interface is None
        &&& forall|slot: int|
            0 <= slot < KEY_SLOT_COUNT ==> self.shared_lmac_state.key_slot_manager.is_free(slot)
        &&& self.shared_lmac_state.key_slot_manager.commands@.len() == 0
        &&& forall|i: int|
            0 <= i < EDCA_QUEUE_COUNT ==> (#[trigger] self.edca_tx_queues@[i]).capacity
                == TX_BUFFER_COUNT
        &&& forall|i: int|
            0 <= i < EDCA_QUEUE_COUNT ==> (#[trigger] self.edca_tx_queues@[i]).counter == 0
        &&& forall|i: int, slot: int|
            0 <= i < EDCA_QUEUE_COUNT && 0 <= slot < TX_BUFFER_COUNT
                ==> #[trigger] self.edca_tx_queues@[i].queue_items@[slot] == (TxQueueItem {
                slot: TxQueueSlot::Empty,
                return_data_expected: true,
            })
        &&& self.tx_buffer_manager.free().len() == TX_BUFFER_COUNT
    }

    /// Create new stack resources, for a radio that is tuned to `channel`.
    pub fn new(channel: u8) -> (resources: Self)
        ensures
            resources.wf(),
            resources.is_fresh(),
            resources.shared_lmac_state.channel_state.channel == channel,
            forall|i: int|
                0 <= i < INTERFACE_COUNT ==> (#[trigger] resources.rx_queues@[i]).queue@.len() == 0,
            forall|i: int|
                0 <= i < INTERFACE_COUNT ==> (
                #[trigger] resources.rx_queues@[i]).queue.spec_capacity() == RX_QUEUE_LEN,
            forall|i: int| 0 <= i < INTERFACE_COUNT ==> !(#[trigger] resources.rx_queues@[i]).active,
            forall|i: int|
                0 <= i < INTERFACE_COUNT ==> #[trigger] resources.rx_interfaces@[i] == (
                RxInterface {
                    bssid_filter: None,
                    receiver_address_filter: None,
                    scanning_mode: ScanningMode::Disabled,
                }),
            forall|i: int|
                0 <= i < RX_BUFFER_COUNT ==> (#[trigger] resources.arc_pool.state@[i]) is None,
    {
        Self {
            shared_lmac_state: SharedLMacState::new(channel),
            rx_interfaces: [
                RxInterface::new(),
                RxInterface::new(),
                RxInterface::new(),
                RxInterface::new(),
            ],
            rx_queues: [
                RxQueue::new(RX_QUEUE_LEN),
                RxQueue::new(RX_QUEUE_LEN),
                RxQueue::new(RX_QUEUE_LEN),
                RxQueue::new(RX_QUEUE_LEN),
            ],
            arc_pool: RxArcPool::new(),
            edca_tx_queues: [TxQueue::new(), TxQueue::new(), TxQueue::new(), TxQueue::new()],
            tx_buffer_manager: TxBufferManager::new(),
        }
    }
}

/// A virtual interface (VIF).
///
/// This is intended to be used by interface implementations.
pub struct VirtualInterface {
    /// Control over the interface.
    pub interface_control: LMacInterfaceControl,
    /// Access to the transmit queues.
    pub tx_endpoint: TxEndpoint,
}

impl VirtualInterface {
    /// All parts belong to the same interface.
    pub open spec fn wf(&self) -> bool {
        &&& self.interface_control.wf()
        &&& self.tx_endpoint.wf()
        &&& self.tx_endpoint.interface == self.interface_control.interface
    }

    /// Open the receive queue of the interface.
    pub fn split(&self, resources: &mut FoAResources) -> (endpoint: RxEndpoint)
        requires
            self.wf(),
            old(resources).wf(),
        ensures
            final(resources).wf(),
            endpoint.interface == self.interface_control.interface,
            *final(resources) == (FoAResources {
                rx_queues: final(resources).rx_queues,
                ..*old(resources)
            }),
            final(resources).rx_queues@ == old(resources).rx_queues@.update(
                self.interface_control.interface as int,
                RxQueue {
                    active: true,
                    ..old(resources).rx_queues@[self.interface_control.interface as int]
                },
            ),
    {
        RxEndpoint::new(&mut resources.rx_queues, self.interface_control.interface)
    }

    /// Reset the virtual interface.
    ///
    /// This releases any prior channel lock, resets all filters and clears the receive queue. The
    /// handles of the frames that were in it are returned, so that the frames can be given back.
    pub fn reset(&mut self, resources: &mut FoAResources) -> (dropped: Vec<usize>)
        requires
            old(self).wf(),
            old(resources).wf(),
        ensures
            *final(self) == *old(self),
            final(resources).wf(),
            final(resources).shared_lmac_state.channel_state.is_after_unlock(
                old(resources).shared_lmac_state.channel_state,
                old(self).interface_control.interface,
            ),
            final(resources).shared_lmac_state.key_slot_manager == old(
                resources,
            ).shared_lmac_state.key_slot_manager,
            dropped@ == old(resources).rx_queues@[old(
                self,
            ).interface_control.interface as int].queue@,
            final(resources).rx_queues@[old(self).interface_control.interface as int].queue@.len()
                == 0,
            final(resources).rx_queues@[old(self).interface_control.interface as int].active == old(
                resources,
            ).rx_queues@[old(self).interface_control.interface as int].active,
            final(resources).rx_interfaces@[old(self).interface_control.interface as int] == (
            RxInterface {
                bssid_filter: None,
                receiver_address_filter: None,
                scanning_mode: ScanningMode::Disabled,
            }),
            forall|i: int|
                0 <= i < INTERFACE_COUNT && i != old(self).interface_control.interface ==> {
                    &&& #[trigger] final(resources).rx_queues@[i] == old(resources).rx_queues@[i]
                    &&& final(resources).rx_interfaces@[i] == old(resources).rx_interfaces@[i]
                },
            final(resources).arc_pool == old(resources).arc_pool,
            final(resources).edca_tx_queues == old(resources).edca_tx_queues,
            final(resources).tx_buffer_manager == old(resources).tx_buffer_manager,
    {
        let interface: usize = self.interface_control.interface;
        let dropped = resources.rx_queues[interface].queue.clear();
        self.interface_control.unlock_channel(&mut resources.shared_lmac_state);
        resources.rx_interfaces[interface].set_scanning_mode(ScanningMode::Disabled);
        resources.rx_interfaces[interface].clear_filter(RxFilterBank::Bssid);
        resources.rx_interfaces[interface].clear_filter(RxFilterBank::ReceiverAddress);
        assert forall|i: int| 0 <= i < INTERFACE_COUNT && i != interface implies {
            &&& #[trigger] resources.rx_queues@[i] == old(resources).rx_queues@[i]
            &&& resources.rx_interfaces@[i] == old(resources).rx_interfaces@[i]
        } by {}
        dropped
    }
}

/// The background runner: which queue each transmit endpoint of the radio serves.
pub struct FoARunner {
    /// Index of the software queue, for the endpoint of each access category.
    pub edca_tx_runners: [(EdcaAccessCategory, usize); 4],
}

/// Set up the stack, for a radio that is tuned to `channel`.
///
/// What was left of an earlier run is dropped, but for the receive queues.
pub fn init(resources: &mut FoAResources, channel: u8) -> (stack: (
    [VirtualInterface; 4],
    FoARunner,
))
    requires
        old(resources).wf(),
    ensures
        final(resources).wf(),
        final(resources).is_fresh(),
        final(resources).shared_lmac_state.channel_state.channel == channel,
        final(resources).rx_queues == old(resources).rx_queues,
        final(resources).rx_interfaces == old(resources).rx_interfaces,
        final(resources).arc_pool == old(resources).arc_pool,
        forall|i: int| 0 <= i < INTERFACE_COUNT ==> (#[trigger] stack.0@[i]).wf(),
        forall|i: int|
            0 <= i < INTERFACE_COUNT ==> (#[trigger] stack.0@[i]).interface_control.interface == i,
        forall|i: int|
            0 <= i < EDCA_QUEUE_COUNT ==> (#[trigger] stack.1.edca_tx_runners@[i]).1
                == stack.1.edca_tx_runners@[i].0.spec_hardware_slot() - 1,
        forall|i: int| 0 <= i < EDCA_QUEUE_COUNT ==> (#[trigger] stack.1.edca_tx_runners@[i]).1 == i,
{
    resources.shared_lmac_state = SharedLMacState::new(channel);
    resources.tx_buffer_manager = TxBufferManager::new();
    resources.edca_tx_queues = [TxQueue::new(), TxQueue::new(), TxQueue::new(), TxQueue::new()];
    (
        [virtual_interface(0), virtual_interface(1), virtual_interface(2), virtual_interface(3)],
        FoARunner {
            edca_tx_runners: [
                tx_runner(EdcaAccessCategory::Background),
                tx_runner(EdcaAccessCategory::BestEffort),
                tx_runner(EdcaAccessCategory::Video),
                tx_runner(EdcaAccessCategory::Voice),
            ],
        },
    )
}

/// Put together the parts of one interface.
fn virtual_interface(interface: usize) -> (virtual_interface: VirtualInterface)
    requires
        interface < INTERFACE_COUNT,
    ensures
        virtual_interface.wf(),
        virtual_interface.interface_control.interface == interface,
{
    VirtualInterface {
        interface_control: LMacInterfaceControl { interface },
        tx_endpoint: TxEndpoint { interface },
    }
}

/// Find the software queue that the endpoint of an access category serves.
fn tx_runner(category: EdcaAccessCategory) -> (runner: (EdcaAccessCategory, usize))
    ensures
        runner.0 == category,
        runner.1 == category.spec_hardware_slot() - 1,
{
    (category, category.hardware_slot() - 1)
}

} // verus!

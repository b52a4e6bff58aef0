//! Routing of received frames inside the station.
use vstd::prelude::*;

use crate::frame::{carries_eapol, is_eapol_key_frame, is_management, parse_generic};
use crate::mac::MACAddress;
use crate::mgmt::{
    SUBTYPE_ASSOCIATION_RESPONSE, SUBTYPE_AUTHENTICATION, SUBTYPE_BEACON, SUBTYPE_PROBE_RESPONSE,
};
use crate::radio::ReceivedFrame;
use crate::util::rx_router::{
    HasScanOperation, RxRouter, RxRouterOperation, RxRouterQueue,
    RxRouterScopedOperation,
};

verus! {

/// Depth of the queues of the station's router.
pub const RX_QUEUE_DEPTH: usize = 4;

/// Operations used by the station.
#[derive(Clone, Copy, Debug)]
pub enum StaRxRouterOperation {
    /// Authenticating with a network.
    Authenticating {
        /// The address used to connect.
        own_address: MACAddress,
    },
    /// Associating with a network.
    Associating {
        /// The address used to connect.
        own_address: MACAddress,
    },
    /// Performing a four way handshake with a network.
    CryptoHandshake {
        /// The address used to connect.
        own_address: MACAddress,
    },
    /// Scanning for networks.
    Scanning,
}

impl StaRxRouterOperation {
    /// The address that is used to connect to a network.
    pub open spec fn spec_connecting_mac_address(self) -> Option<MACAddress> {
        match self {
            StaRxRouterOperation::Authenticating { own_address } => Some(own_address),
            StaRxRouterOperation::Associating { own_address } => Some(own_address),
            StaRxRouterOperation::CryptoHandshake { own_address } => Some(own_address),
            StaRxRouterOperation::Scanning => None,
        }
    }

    /// Get the address we're currently using to connect to a network.
    pub fn connecting_mac_address(self) -> (address: Option<MACAddress>)
        ensures
            address == self.spec_connecting_mac_address(),
    {
        match self {
            StaRxRouterOperation::Authenticating { own_address } => Some(own_address),
            StaRxRouterOperation::Associating { own_address } => Some(own_address),
            StaRxRouterOperation::CryptoHandshake { own_address } => Some(own_address),
            StaRxRouterOperation::Scanning => None,
        }
    }
}

impl RxRouterOperation for StaRxRouterOperation {
    open spec fn spec_concurrent() -> bool {
        false
    }

    open spec fn relevant(&self, frame: Seq<u8>) -> bool {
        match self {
            StaRxRouterOperation::Scanning => is_management(frame, SUBTYPE_BEACON)
                || is_management(frame, SUBTYPE_PROBE_RESPONSE),
            StaRxRouterOperation::Authenticating { .. } => is_management(
                frame,
                SUBTYPE_AUTHENTICATION,
            ),
            StaRxRouterOperation::Associating { .. } => is_management(
                frame,
                SUBTYPE_ASSOCIATION_RESPONSE,
            ),
            StaRxRouterOperation::CryptoHandshake { .. } => carries_eapol(frame),
        }
    }

    open spec fn compatible(&self, other: &Self) -> bool {
        false
    }

    fn concurrent_operations_supported() -> (supported: bool) {
        false
    }

    fn frame_relevant_for_operation(&self, frame: &[u8]) -> (relevant: bool) {
        let header = match parse_generic(frame) {
            Some(header) => header,
            None => {
                return false;
            },
        };
        match self {
            StaRxRouterOperation::Scanning => header.is_management(SUBTYPE_BEACON, Ghost(frame@))
                || header.is_management(SUBTYPE_PROBE_RESPONSE, Ghost(frame@)),
            StaRxRouterOperation::Authenticating { .. } => header.is_management(
                SUBTYPE_AUTHENTICATION,
                Ghost(frame@),
            ),
            StaRxRouterOperation::Associating { .. } => header.is_management(
                SUBTYPE_ASSOCIATION_RESPONSE,
                Ghost(frame@),
            ),
            StaRxRouterOperation::CryptoHandshake { .. } => is_eapol_key_frame(frame),
        }
    }

    fn compatible_with(&self, other: &Self) -> (compatible: bool) {
        false
    }
}

impl HasScanOperation for StaRxRouterOperation {
    open spec fn spec_scan_operation() -> Self {
        StaRxRouterOperation::Scanning
    }

    fn scan_operation() -> (operation: Self) {
        StaRxRouterOperation::Scanning
    }
}

/// The router of the station.
pub type StaRxRouter = RxRouter<RX_QUEUE_DEPTH, StaRxRouterOperation>;

/// Whether a received frame still belongs to an operation.
pub open spec fn belongs_to(operation: StaRxRouterOperation, frame: ReceivedFrame) -> bool {
    frame.mpdu@.len() >= 10 && operation.relevant(frame.mpdu@)
}

/// Check whether a received frame still belongs to the current connection step.
pub fn is_connection_response(operation: StaRxRouterOperation, frame: &ReceivedFrame) -> (response:
    bool)
    ensures
        response == belongs_to(operation, *frame),
{
    parse_generic(&frame.mpdu).is_some() && operation.frame_relevant_for_operation(&frame.mpdu)
}

/// What receiving a response gives.
pub struct ConnectionResponse {
    /// Handle of the response; nothing if none has arrived yet.
    pub response: Option<usize>,
    /// Handles of the frames in front of it that belong to an earlier step.
    pub stale: Vec<usize>,
}

/// What receiving a response for the operation with the given queue leads to: the frames in front of
/// the first that belongs to the operation are taken out of the queue, and so is that one.
pub open spec fn response_received(
    before: StaRxRouter,
    after: StaRxRouter,
    of: RxRouterQueue,
    frames: Seq<ReceivedFrame>,
    received: ConnectionResponse,
) -> bool {
    let operation = before.state(of).operation_state->Some_0;
    let queue = before.state(of).queue@;
    let rest = after.state(of).queue@;
    &&& after.completion_signaled == before.completion_signaled
    &&& after.state(of.spec_opposite()) == before.state(of.spec_opposite())
    &&& after.state(of).operation_state == before.state(of).operation_state
    &&& forall|i: int|
        0 <= i < received.stale@.len() ==> !belongs_to(
            operation,
            frames[(#[trigger] received.stale@[i]) as int],
        )
    &&& match received.response {
        Some(response) => {
            &&& belongs_to(operation, frames[response as int])
            &&& queue == received.stale@.push(response) + rest
        },
        None => queue == received.stale@ && rest.len() == 0,
    }
}

/// Receive a response that still belongs to the current connection step.
///
/// Routing classifies frames when they arrive. An authentication duplicate can remain queued when
/// the guard transitions to association, so frames are revalidated before using a typed parser
/// (which may accept another management subtype's body). Handles index `frames`. Callers must apply
/// their timeout around the entire wait, not around each call.
pub fn receive_connection_response(
    router: &mut StaRxRouter,
    router_operation: &RxRouterScopedOperation,
    frames: &Vec<ReceivedFrame>,
) -> (received: ConnectionResponse)
    requires
        old(router).wf(),
        old(router).state(router_operation.router_queue).operation_state is Some,
        forall|i: int|
            0 <= i < old(router).state(router_operation.router_queue).queue@.len() ==> (
            #[trigger] old(router).state(router_operation.router_queue).queue@[i]) < frames@.len(),
    ensures
        final(router).wf(),
        response_received(
            *old(router),
            *final(router),
            router_operation.router_queue,
            frames@,
            received,
        ),
{
    let operation = router_operation.operation(router);
    let ghost all = router.state(router_operation.router_queue).queue@;
    let mut stale: Vec<usize> = Vec::new();
    loop
        invariant
            router.wf(),
            router.completion_signaled == old(router).completion_signaled,
            router.state(router_operation.router_queue.spec_opposite()) == old(router).state(
                router_operation.router_queue.spec_opposite(),
            ),
            router.state(router_operation.router_queue).operation_state == old(router).state(
                router_operation.router_queue,
            ).operation_state,
            old(router).state(router_operation.router_queue).operation_state == Some(operation),
            all == old(router).state(router_operation.router_queue).queue@,
            all == stale@ + router.state(router_operation.router_queue).queue@,
            forall|i: int| 0 <= i < all.len() ==> (#[trigger] all[i]) < frames@.len(),
            forall|i: int|
                0 <= i < stale@.len() ==> !belongs_to(
                    operation,
                    frames@[(#[trigger] stale@[i]) as int],
                ),
        decreases router.state(router_operation.router_queue).queue@.len(),
    {
        let ghost left = router.state(router_operation.router_queue).queue@;
        let handle: usize = match router.receive(router_operation.router_queue) {
            Some(handle) => handle,
            None => {
                assert(all =~= stale@);
                return ConnectionResponse { response: None, stale };
            },
        };
        proof {
            assert(all[stale@.len() as int] == left[0]);
            assert(left =~= seq![handle] + left.drop_first());
            assert(all =~= stale@.push(handle) + left.drop_first());
        }
        if is_connection_response(operation, &frames[handle]) {
            return ConnectionResponse { response: Some(handle), stale };
        }
        stale.push(handle);
    }
}

} // verus!

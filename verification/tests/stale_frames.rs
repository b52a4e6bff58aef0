//! Tests of frames that arrive late, when another operation or association has begun.
use foa::mac::MACAddress;
use foa::radio::ReceivedFrame;
use foa::sta::bss::{SecurityConfig, BSS};
use foa::sta::connection_state::{
    ConnectionConfig, ConnectionInfo, ConnectionState, ConnectionStateTracker, DisconnectionReason,
};
use foa::sta::operations::connect::{do_assoc, do_auth, ConnectionStep, StepAction};
use foa::sta::rx_router::{receive_connection_response, StaRxRouter, StaRxRouterOperation};
use foa::sta::runner::{handle_bg_rx, ConnectionRxEvent};
use foa::sta::StaError;
use foa::util::rx_router::{RxRouterQueue, RxRouterRoutingError, RxRouterScopedOperation};
use ieee80211::common::{AssociationID, IEEE80211StatusCode};
use ieee80211::mgmt_frame::{AssociationResponseFrame, AuthenticationFrame};
use ieee80211::scroll::Pread;

const OWN: [u8; 6] = [2, 0, 0, 0, 0, 1];
const AP: [u8; 6] = [2, 0, 0, 0, 0, 2];
const RX_QUEUE_DEPTH: usize = 4;

/// The router, and the buffers that the queues refer to.
struct Fixture {
    router: StaRxRouter,
    frames: Vec<ReceivedFrame>,
    drops: usize,
}

impl Fixture {
    fn new() -> Self {
        Self { router: StaRxRouter::new(), frames: Vec::new(), drops: 0 }
    }

    fn route(&mut self, bytes: &[u8]) -> Result<(), RxRouterRoutingError> {
        let handle = self.frames.len();
        self.frames.push(ReceivedFrame {
            mpdu: bytes.to_vec(),
            rssi: -40,
            timestamp: 0,
            interfaces: [true, false, false, false],
        });
        match self.router.route_frame(bytes, handle) {
            Ok(queue) => {
                assert!(queue.is_some());
                Ok(())
            }
            Err(error) => {
                self.drops += 1;
                Err(error)
            }
        }
    }

    fn start(&mut self, operation: StaRxRouterOperation) -> RxRouterScopedOperation {
        self.router.start_operation(RxRouterQueue::Foreground, operation, false).unwrap()
    }

    fn receive(&mut self, queue: RxRouterQueue) -> Option<Vec<u8>> {
        let handle = self.router.receive(queue)?;
        Some(self.frames[handle].mpdu.clone())
    }

    fn response(&mut self, operation: &RxRouterScopedOperation) -> Option<Vec<u8>> {
        let received = receive_connection_response(&mut self.router, operation, &self.frames);
        self.drops += received.stale.len();
        Some(self.frames[received.response?].mpdu.clone())
    }
}

fn connection() -> ConnectionInfo {
    ConnectionInfo {
        bss: BSS {
            ssid: "network".to_owned(),
            channel: 1,
            bssid: MACAddress(AP),
            last_rssi: -40,
            security_config: SecurityConfig::Open,
        },
        own_address: MACAddress(OWN),
        aid: 1,
        connection_config: ConnectionConfig { beacon_timeout: None, ..Default::default() },
    }
}

fn deauth(sequence: u16) -> [u8; 26] {
    let mut bytes = [0; 26];
    bytes[0] = 0xc0; // unprotected deauthentication
    bytes[4..10].copy_from_slice(&OWN);
    bytes[10..16].copy_from_slice(&AP);
    bytes[16..22].copy_from_slice(&AP);
    bytes[22..24].copy_from_slice(&(sequence << 4).to_le_bytes());
    bytes[24] = 3; // leaving network
    bytes
}

fn response(subtype: u8, sequence: u16, status: u16) -> [u8; 30] {
    let mut bytes = [0; 30];
    bytes[..24].copy_from_slice(&deauth(sequence)[..24]);
    bytes[0] = subtype;
    if subtype == 0xb0 {
        bytes[26] = 2; // open authentication response
        bytes[28..30].copy_from_slice(&status.to_le_bytes());
    } else {
        bytes[24] = 1; // ESS capabilities
        bytes[26..28].copy_from_slice(&status.to_le_bytes());
        if status == 0 {
            bytes[28..30].copy_from_slice(&0xc001u16.to_le_bytes());
        }
    }
    bytes
}

fn disconnected(event: Option<ConnectionRxEvent>) -> DisconnectionReason {
    match event {
        Some(ConnectionRxEvent::Disconnected(reason)) => reason,
        _ => panic!("expected deauthentication result"),
    }
}

fn authenticating() -> StaRxRouterOperation {
    StaRxRouterOperation::Authenticating { own_address: MACAddress(OWN) }
}

fn associating() -> StaRxRouterOperation {
    StaRxRouterOperation::Associating { own_address: MACAddress(OWN) }
}

#[test]
fn current_association_deauth_is_the_positive_control() {
    let mut f = Fixture::new();
    let mut state = ConnectionStateTracker::new();
    state.signal_state(ConnectionState::Connected(connection()));
    f.route(&deauth(100)).unwrap();
    let frame = f.receive(RxRouterQueue::Background).unwrap();
    let reason = disconnected(handle_bg_rx(&frame));
    assert_eq!(reason, DisconnectionReason::Deauthenticated);
    assert_eq!(f.drops, 0);
    assert_eq!(f.receive(RxRouterQueue::Background), None);
}

#[test]
fn reproduces_stale_deauth_disconnect_after_same_ap_reconnect() {
    let mut f = Fixture::new();
    let mut state = ConnectionStateTracker::new();
    state.signal_state(ConnectionState::Connected(connection()));
    state.signal_state(ConnectionState::Disconnected(DisconnectionReason::User));
    assert!(state.connection_info().is_none());
    // Delayed prior-association management traffic arrives during the next
    // authentication operation. Routing sends it to Background.
    let operation = f.start(authenticating());
    f.route(&deauth(101)).unwrap();
    assert_eq!(f.response(&operation), None);
    assert_eq!(f.drops, 0, "background queue retains the old RX buffer");
    operation.complete(&mut f.router);
    // The operation boundary does not flush Background. The
    // control path signals Connected when a fresh handshake completes.
    state.signal_state(ConnectionState::Connected(connection()));
    let info = state.connection_info().unwrap();
    assert_eq!((info.bss.bssid, info.own_address, info.aid), (MACAddress(AP), MACAddress(OWN), 1));
    let stale = f.receive(RxRouterQueue::Background).unwrap();
    // Both addresses match the newly associated AP; address validation
    // alone cannot identify this stale frame from the previous association.
    assert_eq!(&stale[10..16], &AP);
    assert_eq!(&stale[16..22], &AP);
    let reason = disconnected(handle_bg_rx(&stale));
    assert_eq!(reason, DisconnectionReason::Deauthenticated);
    state.signal_state(ConnectionState::Disconnected(reason));
    assert_eq!(state.disconnection_reason(), Some(DisconnectionReason::Deauthenticated));
    assert!(state.take_signal());
    assert!(!state.take_signal());
}

#[test]
fn disconnected_background_queue_retains_four_buffers_until_consumed() {
    let mut f = Fixture::new();
    let state = ConnectionStateTracker::new();
    assert!(!state.connected());
    for _ in 0..RX_QUEUE_DEPTH {
        f.route(&deauth(102)).unwrap();
    }
    assert_eq!(f.drops, 0);
    assert!(matches!(f.route(&deauth(102)), Err(RxRouterRoutingError::QueueFull)));
    assert_eq!(f.drops, 1, "overflow drops only the new frame");
    for _ in 0..RX_QUEUE_DEPTH {
        assert!(f.receive(RxRouterQueue::Background).is_some());
        f.drops += 1;
    }
    assert_eq!(f.receive(RxRouterQueue::Background), None);
    assert_eq!(f.drops, RX_QUEUE_DEPTH + 1);
}

#[test]
fn queued_auth_duplicate_is_reinterpreted_as_association_status_two_without_revalidation() {
    let mut f = Fixture::new();
    let auth = response(0xb0, 201, 0);
    let assoc = response(0x10, 202, 0);
    let mut operation = f.start(authenticating());
    for _ in 0..2 {
        f.route(&auth).unwrap();
    }
    let first = f.receive(RxRouterQueue::Foreground).unwrap();
    assert_eq!(
        first.pread::<AuthenticationFrame>(0).unwrap().status_code,
        IEEE80211StatusCode::Success
    );
    operation.transition(&mut f.router, associating()).unwrap();
    f.route(&assoc).unwrap();
    // A receive without revalidation and the plain parser reproduce the exact
    // observed status without any association rejection on the wire.
    let duplicate = f.receive(RxRouterQueue::Foreground).unwrap();
    let misparsed = duplicate.pread::<AssociationResponseFrame>(0).unwrap();
    assert_eq!(misparsed.status_code, IEEE80211StatusCode::TdlsRejectedAlternativeProvided);
    assert_eq!(misparsed.association_id, None);
    let genuine = f.receive(RxRouterQueue::Foreground).unwrap();
    assert_eq!(
        genuine.pread::<AssociationResponseFrame>(0).unwrap().status_code,
        IEEE80211StatusCode::Success
    );
}

#[test]
fn current_operation_revalidation_releases_duplicate_and_accepts_association_behind_it() {
    let mut f = Fixture::new();
    let auth = response(0xb0, 203, 0);
    let assoc = response(0x10, 204, 0);
    let mut operation = f.start(authenticating());
    for _ in 0..2 {
        f.route(&auth).unwrap();
    }
    assert!(f.response(&operation).is_some());
    f.drops += 1;
    operation.transition(&mut f.router, associating()).unwrap();
    f.route(&assoc).unwrap();
    let genuine = f.response(&operation).unwrap();
    assert_eq!(f.drops, 2, "first response and stale duplicate released");
    let parsed = genuine.pread::<AssociationResponseFrame>(0).unwrap();
    assert_eq!(parsed.status_code, IEEE80211StatusCode::Success);
    assert_eq!(parsed.association_id, AssociationID::new_checked(1));
    assert_eq!(do_assoc(&genuine), Ok(1));
}

#[test]
fn current_authentication_and_association_rejection_responses_are_preserved() {
    for (subtype, operation) in [(0xb0, authenticating()), (0x10, associating())] {
        let mut f = Fixture::new();
        let rejection = response(subtype, 205, 2);
        let operation = f.start(operation);
        f.route(&rejection).unwrap();
        let received = f.response(&operation).unwrap();
        assert_eq!(f.drops, 0, "a matching response is not discarded based on status");
        let status = if subtype == 0xb0 {
            assert_eq!(do_auth(&received), Err(StaError::AuthenticationFailure(2)));
            received.pread::<AuthenticationFrame>(0).unwrap().status_code
        } else {
            assert_eq!(do_assoc(&received), Err(StaError::AssociationFailure(2)));
            received.pread::<AssociationResponseFrame>(0).unwrap().status_code
        };
        assert_eq!(status, IEEE80211StatusCode::TdlsRejectedAlternativeProvided);
    }
}

#[test]
fn authentication_arriving_after_transition_still_routes_to_background() {
    let mut f = Fixture::new();
    let auth = response(0xb0, 206, 0);
    let operation = f.start(associating());
    f.route(&auth).unwrap();
    assert_eq!(f.response(&operation), None);
    assert_eq!(f.drops, 0);
    assert!(f.receive(RxRouterQueue::Background).is_some());
}

#[test]
fn filtering_near_deadline_does_not_restart_the_original_timeout() {
    let mut f = Fixture::new();
    let auth = response(0xb0, 207, 0);
    let mut operation = f.start(authenticating());
    for _ in 0..RX_QUEUE_DEPTH {
        f.route(&auth).unwrap();
    }
    operation.transition(&mut f.router, associating()).unwrap();
    let (mut step, action) =
        ConnectionStep::begin(&ConnectionConfig { handshake_retries: 0, ..Default::default() });
    assert_eq!(action, StepAction::Transmit);
    assert_eq!(step.transmitted(true), StepAction::AwaitResponse);
    // Just before the deadline the whole backlog is discarded at once, so that
    // the one deadline around it stays in force.
    assert_eq!(f.response(&operation), None);
    assert_eq!(f.drops, RX_QUEUE_DEPTH);
    assert_eq!(step.timed_out(), StepAction::Fail(StaError::ResponseTimeout));
}

#[test]
fn crypto_operation_filter_preserves_eapol_behind_stale_association() {
    let mut f = Fixture::new();
    let assoc = response(0x10, 208, 0);
    let mut eapol = [0u8; 131];
    eapol[..24].copy_from_slice(&deauth(209)[..24]);
    eapol[0] = 0x08; // data, from DS
    eapol[1] = 0x02;
    eapol[24..32].copy_from_slice(&[0xaa, 0xaa, 0x03, 0, 0, 0, 0x88, 0x8e]);
    eapol[32..36].copy_from_slice(&[2, 3, 0, 95]); // 802.1X EAPOL-Key header
    eapol[36] = 2; // RSN key descriptor
    eapol[37..39].copy_from_slice(&0x008au16.to_be_bytes()); // pairwise, ACK, MIC version2
    eapol[39..41].copy_from_slice(&16u16.to_be_bytes());
    let mut operation = f.start(associating());
    f.route(&assoc).unwrap();
    operation
        .transition(
            &mut f.router,
            StaRxRouterOperation::CryptoHandshake { own_address: MACAddress(OWN) },
        )
        .unwrap();
    f.route(&eapol).unwrap();
    let received = f.response(&operation).unwrap();
    assert_eq!(f.drops, 1);
    assert_eq!(received, eapol);
    assert!(ieee80211::GenericFrame::new(&received, false).unwrap().is_eapol_key_frame());
}

//! Tests of the station: networks, scanning, connections and data.
use core::marker::PhantomData;
use foa::lmac::crypto::KeyCommand;
use foa::lmac::{LMacError, LMacInterfaceControl, SharedLMacState};
use foa::mac::MACAddress;
use foa::radio::{RxInterface, ScanningMode, TxError, TxPhyRate};
use foa::sta::bss::{Credentials, SecurityConfig, Wpa2Config, BSS};
use foa::sta::connection_state::{
    ConnectionConfig, ConnectionInfo, ConnectionState, DisconnectionReason, ReconnectDecision,
};
use foa::sta::control::{ConnectDecision, StaControl};
use foa::sta::handshake_probe::{route_kind, tx_outcome};
use foa::sta::operations::connect::{
    begin_bringup, configure_rx_filters, do_assoc, do_auth, prepare_keys, release_keys,
    write_association_request, write_authentication, ConnectionOperation, ConnectionPhase,
    ConnectionStep, StepAction,
};
use foa::sta::operations::handshake::{
    handshake_frame, handshake_sent, HandshakeAction, HandshakeParameters, HandshakeState,
};
use foa::sta::operations::scan::{
    enumerate_bss, scan_continuously, scan_result, search_for_bss, search_result, BssList,
};
use foa::sta::rsn::{
    SecurityAssociations, TransientKeySecurityAssociation, CIPHER_CCMP_128, WPA2_PSK_AKM,
};
use foa::sta::rsn_retransmit::Message3Replay;
use foa::sta::runner::{
    check_data_frame, connecting_mac_address, connection_ended, encode_msdu, handle_bg_rx, handle_data_rx,
    handle_downlink_msdu, route_received, ConnectionAction, ConnectionRxEvent, ConnectionWatch,
    Routing,
};
use foa::sta::rx_router::{StaRxRouter, StaRxRouterOperation};
use foa::sta::{StaError, StaTxRx};
use foa::util::operations::scan::{PostChannelScanAction, Scan, ScanConfig, ScanStep, ScanStrategy};
use foa::util::random_mac_address;
use foa::util::rx_router::{RxRouterOperationError, RxRouterQueue, RxRouterRoutingError};
use ieee80211::common::{DataFrameSubtype, FCFFlags};
use ieee80211::crypto::eapol::{EapolKeyFrame, KeyInformation};
use ieee80211::crypto::{
    derive_ptk, deserialize_eapol_data_frame, serialize_eapol_data_frame,
};
use ieee80211::data_frame::header::DataFrameHeader;
use ieee80211::data_frame::DataFrame;
use ieee80211::elements::element_chain::ElementChainEnd;
use ieee80211::elements::kde::{GtkInfo, GtkKde};
use ieee80211::elements::rsn::IEEE80211AkmType;
use ieee80211::mac_parser::MACAddress as WireAddress;
use ieee80211::mgmt_frame::{AssociationRequestFrame, AuthenticationFrame};
use ieee80211::scroll::Pread;
use llc_rs::{EtherType, SnapLlcFrame};
use std::collections::BTreeMap;

const OWN: MACAddress = MACAddress([2, 0, 0, 0, 0, 1]);
const AP: MACAddress = MACAddress([2, 0, 0, 0, 0, 2]);

const RSN_WPA2: [u8; 22] = [
    48, 20, 1, 0, 0, 0x0f, 0xac, 4, 1, 0, 0, 0x0f, 0xac, 4, 1, 0, 0, 0x0f, 0xac, 2, 0, 0,
];

fn beacon(bssid: MACAddress, ssid: &str, channel: u8, rsn: &[u8]) -> Vec<u8> {
    let mut frame = vec![0x80, 0, 0, 0];
    frame.extend([0xff; 6]);
    frame.extend(bssid.0);
    frame.extend(bssid.0);
    frame.extend([0, 0]);
    frame.extend([0; 12]);
    frame.extend([0, ssid.len() as u8]);
    frame.extend(ssid.as_bytes());
    frame.extend([3, 1, channel]);
    frame.extend(rsn);
    frame
}

fn bss(security_config: SecurityConfig) -> BSS {
    BSS {
        ssid: "network".to_owned(),
        channel: 6,
        bssid: AP,
        last_rssi: -40,
        security_config,
    }
}

fn station() -> StaTxRx {
    StaTxRx::new(LMacInterfaceControl { interface: 0 })
}

fn connected() -> StaTxRx {
    let mut sta_tx_rx = station();
    sta_tx_rx.connection_state.signal_state(ConnectionState::Connected(ConnectionInfo {
        bss: bss(SecurityConfig::Open),
        own_address: OWN,
        aid: 5,
        connection_config: ConnectionConfig::default(),
    }));
    sta_tx_rx
}

#[test]
fn networks_are_described_by_beacons_and_probe_responses() {
    let frame = beacon(AP, "network", 6, &RSN_WPA2);
    let bss = BSS::from_beacon_like(&frame, -50).unwrap();
    assert_eq!((bss.ssid.as_str(), bss.channel, bss.bssid), ("network", 6, AP));
    assert_eq!(bss.last_rssi, -50);
    assert_eq!(bss.security_config, SecurityConfig::Wpa2(Wpa2Config { mfp_required: false }));
    let open = BSS::from_beacon_like(&beacon(AP, "network", 6, &[]), -50).unwrap();
    assert_eq!(open.security_config, SecurityConfig::Open);
    let mut no_ssid = beacon(AP, "network", 6, &[]);
    no_ssid[36] = 99;
    assert!(BSS::from_beacon_like(&no_ssid, -50).is_none());
    let mut response = beacon(AP, "network", 11, &RSN_WPA2);
    response[0] = 0x50;
    let bss = BSS::from_beacon_like(&response, -60).unwrap();
    assert_eq!((bss.ssid.as_str(), bss.channel, bss.bssid), ("network", 11, AP));
    assert_eq!(bss.last_rssi, -60);
    assert_eq!(bss.security_config, SecurityConfig::Wpa2(Wpa2Config { mfp_required: false }));
    assert!(BSS::from_beacon_like(&response[..35], -60).is_none());
    response[0] = 0xc0;
    assert!(BSS::from_beacon_like(&response, -50).is_none());
}

#[test]
fn security_follows_from_suites_and_capabilities() {
    let config = |group: u8, pairwise: u8, akm: u8, capabilities: u8| {
        let mut rsn = RSN_WPA2;
        rsn[7] = group;
        rsn[13] = pairwise;
        rsn[19] = akm;
        rsn[20] = capabilities;
        SecurityConfig::from_beacon_like(&rsn)
    };
    assert_eq!(config(4, 4, 2, 0x80), SecurityConfig::Wpa2(Wpa2Config { mfp_required: true }));
    assert_eq!(config(4, 4, 8, 0x80), SecurityConfig::Wpa3);
    assert_eq!(config(4, 4, 18, 0x80), SecurityConfig::Owe);
    assert_eq!(config(4, 4, 2, 0xc0), SecurityConfig::Invalid);
}

#[test]
fn lists_of_any_capacity_name_each_network_once() {
    let mut list = BssList::new(150);
    let address = |i: u8| MACAddress([2, 0, 0, 0, 0, i]);
    for i in 0..150 {
        assert!(!list.contains(&address(i).0) && !list.is_full());
        let frame = beacon(address(i), "network", 6, &[]);
        let full = matches!(enumerate_bss(&mut list, &frame, -40), PostChannelScanAction::Stop(()));
        assert_eq!(full, i == 149);
        // Once is enough.
        enumerate_bss(&mut list, &frame, -41);
    }
    for i in 0..150 {
        assert!(list.contains(&address(i).0));
        assert_eq!(list.get(i as usize).unwrap().bssid, address(i));
        assert_eq!(list.get(i as usize).unwrap().last_rssi, -40);
    }
    assert!(list.is_full() && list.get(150).is_none() && !list.contains(&address(150).0));
}

#[test]
fn scans_follow_their_strategy() {
    assert_eq!(ScanStrategy::Single(7).channels(1), [7]);
    assert_eq!(ScanStrategy::CurrentChannel.channels(3), [3]);
    assert_eq!(ScanStrategy::Custom(&[4, 2]).channels(1), [4, 2]);
    assert_eq!(ScanStrategy::Linear.channels(1), (1..=13).collect::<Vec<u8>>());
    let mut sorted = ScanStrategy::NonOverlappingFirst.channels(1);
    assert_eq!(&sorted[..3], &[1, 6, 11]);
    sorted.sort();
    assert_eq!(sorted, (1..=13).collect::<Vec<u8>>());
    assert_eq!(ScanConfig::default().channel_remain_time, 200_000);
}

#[test]
fn scan_visits_channels_and_returns_home() {
    let mut state = SharedLMacState::new(1);
    let control = LMacInterfaceControl { interface: 0 };
    control.lock_channel(&mut state, 11).unwrap();
    let requests = control.off_channel_requests(&state).unwrap();
    assert_eq!(requests, [true, false, false, false]);
    let mut operation =
        control.try_begin_interface_off_channel_operation(&mut state, [true; 4]).unwrap();
    assert_eq!(
        control.off_channel_requests(&state).unwrap_err(),
        LMacError::OffChannelOperationAlreadyInProgress
    );
    let strategy = ScanStrategy::Custom(&[3, 5]);
    let config = Some(ScanConfig { channel_remain_time: 1, strategy });
    let mut scan = Scan::begin(config, 11, false);
    assert_eq!(scan.next_channel(&mut operation, &mut state), Ok(ScanStep::Listen(3)));
    assert_eq!(state.channel_state.channel, 3);
    assert_eq!(scan.next_channel(&mut operation, &mut state), Ok(ScanStep::Listen(5)));
    assert_eq!(scan.next_channel(&mut operation, &mut state), Ok(ScanStep::Complete));
    operation.complete(&mut state);
    assert_eq!(state.channel_state.channel, 11);
    assert!(!control.off_channel_operation_in_progress(&state));
    let mut operation =
        control.try_begin_interface_off_channel_operation(&mut state, [true; 4]).unwrap();
    let config = Some(ScanConfig { channel_remain_time: 1, strategy: ScanStrategy::Single(99) });
    let mut scan = Scan::begin(config, 11, false);
    assert_eq!(
        scan.next_channel(&mut operation, &mut state),
        Err(LMacError::InvalidChannel)
    );
    operation.complete(&mut state);
    let refused =
        control.try_begin_interface_off_channel_operation(&mut state, [true, false, true, true]);
    assert_eq!(refused.unwrap_err(), LMacError::OffChannelRequestRejected);
}

#[test]
fn continuous_scans_start_over() {
    let mut state = SharedLMacState::new(1);
    let control = LMacInterfaceControl { interface: 0 };
    let mut operation =
        control.try_begin_interface_off_channel_operation(&mut state, [true; 4]).unwrap();
    let strategy = ScanStrategy::Custom(&[3, 5]);
    let config = Some(ScanConfig { channel_remain_time: 1, strategy });
    let mut scan = Scan::begin(config, 1, true);
    for channel in [3, 5, 3, 5, 3] {
        assert_eq!(scan.next_channel(&mut operation, &mut state), Ok(ScanStep::Listen(channel)));
    }
}

#[test]
fn scans_collect_networks() {
    let one = beacon(AP, "network", 6, &[]);
    let two = beacon(OWN, "other", 6, &[]);
    assert!(matches!(search_for_bss(&two, -40, "network"), PostChannelScanAction::Continue));
    let PostChannelScanAction::Stop(found) = search_for_bss(&one, -40, "network") else {
        panic!("network");
    };
    assert_eq!(found.bssid, AP);
    assert_eq!(search_result(Ok(Some(found))).unwrap().bssid, AP);
    assert_eq!(search_result(Ok(None)).unwrap_err(), StaError::UnableToFindEss);
    assert_eq!(
        search_result(Err(LMacError::InvalidChannel)).unwrap_err(),
        StaError::LMacError(LMacError::InvalidChannel)
    );
    assert_eq!(scan_result(Ok(None)), Ok(()));
    let mut list = BssList::new(2);
    assert!(matches!(enumerate_bss(&mut list, &one, -40), PostChannelScanAction::Continue));
    assert!(matches!(enumerate_bss(&mut list, &one, -41), PostChannelScanAction::Continue));
    assert!(list.contains(&AP.0) && !list.contains(&OWN.0) && !list.is_full());
    // The one that fills the list ends the scan.
    assert!(matches!(enumerate_bss(&mut list, &two, -40), PostChannelScanAction::Stop(())));
    assert!(list.is_full());
    let three = beacon(MACAddress([2, 0, 0, 0, 0, 3]), "third", 6, &[]);
    assert!(matches!(enumerate_bss(&mut list, &one, -40), PostChannelScanAction::Stop(())));
    assert!(matches!(enumerate_bss(&mut list, &three, -40), PostChannelScanAction::Stop(())));
    assert_eq!(list.get(0).unwrap().ssid, "network");
    assert_eq!(list.get(1).unwrap().ssid, "other");
    assert!(list.get(2).is_none());
    // Scans go by beacons alone.
    let mut response = beacon(OWN, "network", 6, &[]);
    response[0] = 0x50;
    assert!(matches!(search_for_bss(&response, -40, "network"), PostChannelScanAction::Continue));
    let mut empty = BssList::new(2);
    assert!(matches!(enumerate_bss(&mut empty, &response, -40), PostChannelScanAction::Continue));
    assert!(empty.get(0).is_none());
    let mut networks = BTreeMap::new();
    let action = scan_continuously(&mut networks, &response, -40, |_: &BSS| false);
    assert!(matches!(action, PostChannelScanAction::Continue) && networks.is_empty());
    let action = scan_continuously(&mut networks, &one, -40, |bss: &BSS| bss.ssid != "other");
    assert!(matches!(action, PostChannelScanAction::Continue));
    let action = scan_continuously(&mut networks, &two, -40, |bss: &BSS| bss.ssid != "other");
    assert!(matches!(action, PostChannelScanAction::Stop(())));
    assert_eq!(networks.len(), 2);
}

#[test]
fn authentication_and_association_frames_are_complete() {
    let mut buffer = vec![0x55; 300];
    let sent = write_authentication(&mut buffer, TxPhyRate::Ofdm(6), AP, OWN);
    assert_eq!(sent.length, 30);
    let frame = buffer[..30].pread::<AuthenticationFrame>(0).unwrap();
    assert_eq!((frame.header.receiver_address.0, frame.header.bssid.0), (AP.0, AP.0));
    assert_eq!(frame.header.transmitter_address.0, OWN.0);
    assert_eq!(&buffer[24..30], &[0, 0, 1, 0, 0, 0]);
    let network = bss(SecurityConfig::Wpa2(Wpa2Config { mfp_required: false }));
    let sent = write_association_request(&mut buffer, TxPhyRate::Ofdm(6), &network, OWN).unwrap();
    let frame = buffer[..sent.length].pread::<AssociationRequestFrame>(0).unwrap();
    assert_eq!(frame.header.receiver_address.0, AP.0);
    assert_eq!(&buffer[28..37], &[0, 7, b'n', b'e', b't', b'w', b'o', b'r', b'k']);
    assert_eq!(&buffer[37..47], &[1, 8, 0x82, 0x84, 0x8b, 0x96, 0x0c, 0x12, 0x18, 0x24]);
    assert_eq!(&buffer[47..53], &[50, 4, 0x30, 0x48, 0x60, 0x6c]);
    assert_eq!(&buffer[53..sent.length], &RSN_WPA2);
    let long = BSS { ssid: "x".repeat(33), ..bss(SecurityConfig::Open) };
    assert_eq!(
        write_association_request(&mut buffer, TxPhyRate::Ofdm(6), &long, OWN),
        Err(StaError::InvalidBss)
    );
}

#[test]
fn responses_are_understood_or_rejected() {
    let mut auth = vec![0xb0, 0, 0, 0];
    auth.extend([0; 20]);
    auth.extend([0, 0, 2, 0, 0, 0]);
    assert_eq!(do_auth(&auth), Ok(()));
    auth[28] = 13;
    assert_eq!(do_auth(&auth), Err(StaError::AuthenticationFailure(13)));
    assert_eq!(do_auth(&auth[..20]), Err(StaError::FrameDeserializationFailed));
    let mut assoc = vec![0x10, 0, 0, 0];
    assoc.extend([0; 20]);
    assoc.extend([1, 0, 0, 0, 7, 0xc0]);
    assert_eq!(do_assoc(&assoc), Ok(7));
    assoc[26] = 17;
    assert_eq!(do_assoc(&assoc), Err(StaError::AssociationFailure(17)));
    assert_eq!(do_assoc(&assoc[..20]), Err(StaError::FrameDeserializationFailed));
}

#[test]
fn steps_are_retried_as_configured() {
    let config = ConnectionConfig { handshake_retries: 2, ..Default::default() };
    let (mut step, action) = ConnectionStep::begin(&config);
    assert_eq!(action, StepAction::Transmit);
    for _ in 0..2 {
        assert_eq!(step.transmitted(true), StepAction::AwaitResponse);
        assert_eq!(step.timed_out(), StepAction::Transmit);
    }
    assert_eq!(step.timed_out(), StepAction::Fail(StaError::ResponseTimeout));
    assert_eq!(step.transmitted(false), StepAction::Fail(StaError::ResponseTimeout));
}

#[test]
fn keys_are_prepared_for_secured_networks_and_released_again() {
    let mut state = SharedLMacState::new(6);
    let control = LMacInterfaceControl { interface: 0 };
    let secured = bss(SecurityConfig::Wpa2(Wpa2Config { mfp_required: false }));
    let open = bss(SecurityConfig::Open);
    assert!(prepare_keys(&control, &mut state, &open, &None).unwrap().is_none());
    assert!(matches!(
        prepare_keys(&control, &mut state, &secured, &Some(Credentials::PreSharedKey(&[1; 31]))),
        Err(StaError::InvalidPskLength)
    ));
    let before = state.key_slot_manager.key_slot_state;
    let credentials = Some(Credentials::PreSharedKey(&[1; 32]));
    let keys = prepare_keys(&control, &mut state, &secured, &credentials).unwrap().unwrap();
    assert_eq!(keys.pmk, [1; 32]);
    assert_ne!(state.key_slot_manager.key_slot_state, before);
    release_keys(&mut state, keys);
    assert_eq!(state.key_slot_manager.key_slot_state, before);
    while state.key_slot_manager.acquire_key_slot().is_some() {}
    assert!(matches!(
        prepare_keys(&control, &mut state, &secured, &credentials),
        Err(StaError::NoKeySlotsAvailable)
    ));
}

#[test]
fn connections_are_brought_up_step_by_step() {
    let mut state = SharedLMacState::new(1);
    let mut sta_tx_rx = station();
    let mut router = StaRxRouter::new();
    let mut rx_interface = RxInterface::new();
    let network = bss(SecurityConfig::Open);
    let bringup_operation =
        begin_bringup(&sta_tx_rx.interface_control, &mut state, &network).unwrap();
    assert_eq!(state.channel_state.channel, 6);
    configure_rx_filters(&mut rx_interface, OWN, &network);
    assert_eq!(rx_interface.bssid_filter, Some(AP.0));
    assert_eq!(rx_interface.receiver_address_filter, Some(OWN.0));
    let operation = StaRxRouterOperation::Authenticating { own_address: OWN };
    let router_operation =
        router.try_start_operation(RxRouterQueue::Foreground, operation).unwrap();
    assert_eq!(connecting_mac_address(&router), Some(OWN));
    assert_eq!(
        router.try_start_operation(RxRouterQueue::Background, operation).unwrap_err(),
        RxRouterOperationError::OperationAlreadyInProgress
    );
    let mut connection = ConnectionOperation { bringup_operation, router_operation, keys: None };
    let mut auth = vec![0xb0, 0, 0, 0];
    auth.extend([0; 20]);
    auth.extend([0, 0, 2, 0, 0, 0]);
    let phase = connection.run(&mut router, ConnectionPhase::Authenticating, &auth, OWN).unwrap();
    assert_eq!(phase, ConnectionPhase::Associating);
    let mut assoc = vec![0x10, 0, 0, 0];
    assoc.extend([0; 20]);
    assoc.extend([1, 0, 0, 0, 7, 0xc0]);
    let phase = connection.run(&mut router, phase, &assoc, OWN).unwrap();
    assert_eq!(phase, ConnectionPhase::Established(7));
    connection.complete(&mut sta_tx_rx, &mut state, &mut router, AP, None);
    assert!(sta_tx_rx.crypto_state.is_none());
    assert_eq!(connecting_mac_address(&router), None);
    assert_eq!(sta_tx_rx.interface_control.home_channel(&state), Some(6));
    let decision = connection_ended(
        &mut sta_tx_rx,
        &mut state,
        &mut rx_interface,
        &ConnectionConfig::default(),
        DisconnectionReason::BeaconTimeout,
    );
    assert_eq!(decision, ReconnectDecision::Reconnect);
    assert_eq!(sta_tx_rx.interface_control.home_channel(&state), None);
    assert_eq!(
        sta_tx_rx.connection_state.disconnection_reason(),
        Some(DisconnectionReason::BeaconTimeout)
    );
}

#[test]
fn reconnecting_is_for_disconnections_that_were_not_asked_for() {
    let automatic = ConnectionConfig::default();
    let manual = ConnectionConfig { automatic_reconnect: false, ..automatic };
    for reason in [DisconnectionReason::BeaconTimeout, DisconnectionReason::Deauthenticated] {
        assert_eq!(automatic.after_disconnection(reason), ReconnectDecision::Reconnect);
        assert_eq!(manual.after_disconnection(reason), ReconnectDecision::Stay);
    }
    let reason = DisconnectionReason::User;
    assert_eq!(automatic.after_disconnection(reason), ReconnectDecision::Stay);
    assert_eq!(manual.after_disconnection(reason), ReconnectDecision::Stay);
}

#[test]
fn reconnecting_gives_the_slots_of_the_earlier_connection_back() {
    let mut state = SharedLMacState::new(6);
    let mut sta_tx_rx = station();
    let mut router = StaRxRouter::new();
    let network = bss(SecurityConfig::Wpa2(Wpa2Config { mfp_required: false }));
    let credentials = Some(Credentials::PreSharedKey(&[1; 32]));
    let control = LMacInterfaceControl { interface: 0 };
    // There are slots for five connections.
    for round in 0..12 {
        let keys = prepare_keys(&control, &mut state, &network, &credentials).unwrap();
        let bringup_operation = begin_bringup(&control, &mut state, &network).unwrap();
        let operation = StaRxRouterOperation::CryptoHandshake { own_address: OWN };
        let router_operation =
            router.try_start_operation(RxRouterQueue::Foreground, operation).unwrap();
        let connection = ConnectionOperation { bringup_operation, router_operation, keys };
        let mut group_keys = [None, None, None, None];
        group_keys[1] = Some(TransientKeySecurityAssociation::new([round; 16], 1));
        let associations = SecurityAssociations {
            ptksa: TransientKeySecurityAssociation::new([round; 48], 0),
            group_keys,
            active_group_id: 1,
            akm_suite: WPA2_PSK_AKM,
            cipher_suite: CIPHER_CCMP_128,
        };
        let replay = Message3Replay::new([0; 32], [0; 32], 1);
        connection.complete(
            &mut sta_tx_rx,
            &mut state,
            &mut router,
            AP,
            Some((associations, replay)),
        );
        let commands = state.key_slot_manager.take_commands();
        assert_eq!(commands.len(), if round == 0 { 2 } else { 7 });
        let cleared = commands.iter().filter(|command| matches!(command, KeyCommand::Clear { .. }));
        assert_eq!(cleared.count(), if round == 0 { 0 } else { 5 });
        assert_eq!(state.key_slot_manager.key_slot_state.count_zeros(), 5);
    }
}

#[test]
fn aborted_connections_leave_nothing_behind() {
    let mut state = SharedLMacState::new(1);
    let free = state.key_slot_manager.key_slot_state;
    let sta_tx_rx = station();
    let mut router = StaRxRouter::new();
    let mut rx_interface = RxInterface::new();
    let network = bss(SecurityConfig::Wpa2(Wpa2Config { mfp_required: false }));
    let credentials = Some(Credentials::PreSharedKey(&[1; 32]));
    let control = &sta_tx_rx.interface_control;
    let keys = prepare_keys(control, &mut state, &network, &credentials).unwrap();
    let bringup_operation = begin_bringup(control, &mut state, &network).unwrap();
    configure_rx_filters(&mut rx_interface, OWN, &network);
    let operation = StaRxRouterOperation::Authenticating { own_address: OWN };
    let router_operation =
        router.try_start_operation(RxRouterQueue::Foreground, operation).unwrap();
    let connection = ConnectionOperation { bringup_operation, router_operation, keys };
    connection.abort(&mut state, &mut router, &mut rx_interface);
    assert_eq!(control.home_channel(&state), None);
    assert_eq!(state.key_slot_manager.key_slot_state, free);
    assert_eq!(connecting_mac_address(&router), None);
    assert_eq!((rx_interface.bssid_filter, rx_interface.receiver_address_filter), (None, None));
}

#[test]
fn control_connects_and_disconnects() {
    let mut control = StaControl { mac_address: OWN };
    let mut sta_tx_rx = station();
    let mut state = SharedLMacState::new(6);
    let mut buffer = vec![0; 1600];
    let secured = bss(SecurityConfig::Wpa2(Wpa2Config { mfp_required: false }));
    assert!(matches!(
        control.begin_connect(&mut sta_tx_rx, &secured, &None, &mut buffer),
        Err(StaError::NoCredentialsForNetwork)
    ));
    let open = bss(SecurityConfig::Open);
    assert!(matches!(
        control.begin_connect(&mut sta_tx_rx, &open, &None, &mut buffer),
        Ok(ConnectDecision::Proceed)
    ));
    assert_eq!(
        control.disconnect(&mut sta_tx_rx, &mut state, &mut buffer),
        Err(StaError::NotConnected)
    );
    assert_eq!(
        control.request_group_rekey(&mut sta_tx_rx, &mut buffer),
        Err(StaError::NotConnected)
    );
    control.finish_connect(&mut sta_tx_rx, open, None, 5);
    assert!(control.connected(&sta_tx_rx));
    assert_eq!(control.get_aid(&sta_tx_rx), Some(5));
    assert_eq!(
        control.set_mac_address(&sta_tx_rx, [9; 6]),
        Err(StaError::StillConnected)
    );
    assert!(matches!(
        control.begin_connect(&mut sta_tx_rx, &bss(SecurityConfig::Open), &None, &mut buffer),
        Err(StaError::SameNetwork)
    ));
    let other = BSS { bssid: MACAddress([2, 0, 0, 0, 0, 3]), ..bss(SecurityConfig::Open) };
    let decision = control.begin_connect(&mut sta_tx_rx, &other, &None, &mut buffer);
    let Ok(ConnectDecision::LeaveFirst(transmission)) = decision else {
        panic!("deauthentication");
    };
    assert_eq!(transmission.length, 26);
    assert_eq!(&buffer[..2], &[0xc0, 0]);
    assert_eq!(&buffer[4..10], &AP.0);
    assert_eq!(&buffer[24..26], &[3, 0]);
    let mut sta_tx_rx = connected();
    assert_eq!(control.disconnect(&mut sta_tx_rx, &mut state, &mut buffer).unwrap().length, 26);
    assert!(!control.connected(&sta_tx_rx));
    assert_eq!(
        control.randomize_mac_address(&sta_tx_rx, [0xff, 1, 2, 3, 4, 5]),
        Ok([0xfe, 1, 2, 3, 4, 5])
    );
    assert_eq!(random_mac_address([0x01, 1, 2, 3, 4, 5]), [0x02, 1, 2, 3, 4, 5]);
    control.override_phy_rate(&mut sta_tx_rx, TxPhyRate::Ofdm(54));
    assert_eq!(control.phy_rate(&sta_tx_rx), TxPhyRate::Ofdm(54));
}

#[test]
fn beacons_keep_the_connection_alive() {
    let frame = beacon(AP, "network", 6, &[]);
    assert_eq!(handle_bg_rx(&frame), Some(ConnectionRxEvent::BeaconReceived));
    assert_eq!(handle_bg_rx(&frame[..10]), None);
    let config = ConnectionConfig { beacon_timeout: Some(1000), ..Default::default() };
    let mut watch = ConnectionWatch::start(&config, 0);
    let mut buffer = vec![0; 100];
    assert_eq!(watch.check_deadline(999, &mut buffer, AP, OWN), ConnectionAction::Continue);
    assert_eq!(watch.received(&frame, 900), ConnectionAction::Continue);
    assert_eq!(watch.check_deadline(1500, &mut buffer, AP, OWN), ConnectionAction::Continue);
    let action = watch.check_deadline(2000, &mut buffer, AP, OWN);
    assert!(matches!(
        action,
        ConnectionAction::Deauthenticate(_, DisconnectionReason::BeaconTimeout)
    ));
    assert_eq!(buffer[0], 0xc0);
}

#[test]
fn uplink_msdus_are_encoded() {
    let mut ethernet = AP.0.to_vec();
    ethernet.extend(OWN.0);
    ethernet.extend([8, 0]);
    ethernet.extend(b"payload");
    let mut sta_tx_rx = connected();
    let mut buffer = vec![0; 1600];
    let transmission = encode_msdu(&mut sta_tx_rx, &ethernet, &mut buffer, AP, OWN).unwrap();
    assert_eq!(transmission.length, 24 + 8 + 7);
    assert_eq!(&buffer[..2], &[8, 1]);
    assert_eq!(&buffer[4..10], &AP.0);
    assert_eq!(&buffer[10..16], &OWN.0);
    assert_eq!(&buffer[24..32], &[0xaa, 0xaa, 3, 0, 0, 0, 8, 0]);
    assert_eq!(&buffer[32..39], b"payload");
    assert!(encode_msdu(&mut sta_tx_rx, &ethernet[..13], &mut buffer, AP, OWN).is_none());
}

fn downlink(payload: &[u8]) -> Vec<u8> {
    let mut frame = vec![8, 2, 0, 0];
    frame.extend(OWN.0);
    frame.extend(AP.0);
    frame.extend([2, 0, 0, 0, 0, 9]);
    frame.extend([0, 0]);
    frame.extend(payload);
    frame
}

#[test]
fn downlink_msdus_become_ethernet_frames() {
    let mut payload = vec![0xaa, 0xaa, 3, 0, 0, 0, 8, 0];
    payload.extend(b"payload");
    let mut sta_tx_rx = station();
    let delivery = handle_data_rx(&mut sta_tx_rx, &downlink(&payload), 1514);
    assert!(delivery.complete);
    let mut expected = OWN.0.to_vec();
    expected.extend([2, 0, 0, 0, 0, 9]);
    expected.extend([8, 0]);
    expected.extend(b"payload");
    assert_eq!(delivery.frames, [expected.clone()]);
    let source = MACAddress([2, 0, 0, 0, 0, 9]);
    assert_eq!(handle_downlink_msdu(&payload, source, OWN, 1514), Some(expected));
    assert_eq!(handle_downlink_msdu(&payload, source, OWN, 20), None);
    assert_eq!(handle_downlink_msdu(&payload[..7], source, OWN, 1514), None);
}

#[test]
fn received_frames_are_routed() {
    let mut sta_tx_rx = connected();
    let mut state = SharedLMacState::new(6);
    sta_tx_rx.interface_control.lock_channel(&mut state, 6).unwrap();
    let mut router = StaRxRouter::new();
    let mut payload = vec![0xaa, 0xaa, 3, 0, 0, 0, 8, 0];
    payload.extend(b"payload");
    let frame = downlink(&payload);
    let routing = route_received(&mut sta_tx_rx, &state, &mut router, &frame, 0, 1514);
    let Routing::Delivered(delivery) = routing else {
        panic!("data");
    };
    assert_eq!(delivery.frames.len(), 1);
    let management = beacon(AP, "network", 6, &[]);
    let routing = route_received(&mut sta_tx_rx, &state, &mut router, &management, 1, 1514);
    assert!(matches!(routing, Routing::Routed(Ok(Some(RxRouterQueue::Background)))));
    assert_eq!(router.receive(RxRouterQueue::Background), Some(1));
    assert_eq!(router.route_frame(&[0; 5], 2), Err(RxRouterRoutingError::InvalidFrame));
}

#[test]
fn malformed_data_frames_are_told_apart() {
    let sta_tx_rx = station();
    let mut frame = downlink(&[0xaa, 0xaa, 3, 0, 0, 0, 8, 0]);
    assert!(check_data_frame(&sta_tx_rx, &frame, 1514));
    // A protected frame needs the flag of its crypto header, and all of it.
    frame[1] |= 0x40;
    assert!(!check_data_frame(&sta_tx_rx, &frame, 1514));
    frame[27] = 0x20;
    assert!(check_data_frame(&sta_tx_rx, &frame, 1514));
    assert!(!check_data_frame(&sta_tx_rx, &frame[..30], 1514));
    // The last MSDU of an aggregate has to be padded too.
    let mut msdu = [[2, 0, 0, 0, 0, 1], [2, 0, 0, 0, 0, 2]].concat();
    msdu.extend([9, 0]);
    msdu.extend([0xaa, 0xaa, 3, 0, 0, 0, 8, 0, 1]);
    let mut aggregate = downlink(&[]);
    aggregate[0] = 0x88;
    aggregate.extend([0x80, 0]);
    aggregate.extend(msdu);
    // From the distribution system, the source of an aggregate is not known.
    assert!(check_data_frame(&sta_tx_rx, &aggregate, 1514));
    assert!(handle_data_rx(&mut station(), &aggregate, 1514).frames.is_empty());
    aggregate[1] = 0;
    assert!(!check_data_frame(&sta_tx_rx, &aggregate, 1514));
    aggregate.push(0);
    assert!(check_data_frame(&sta_tx_rx, &aggregate, 1514));
    let delivery = handle_data_rx(&mut station(), &aggregate, 1514);
    assert_eq!(delivery.frames, [[2, 0, 0, 0, 0, 1, 2, 0, 0, 0, 0, 2, 8, 0, 1].to_vec()]);
}

#[test]
fn operations_exclude_each_other_in_the_router() {
    let mut router = StaRxRouter::new();
    let scanning = router
        .try_start_operation(RxRouterQueue::Foreground, StaRxRouterOperation::Scanning)
        .unwrap();
    assert!(router.can_start_operation(RxRouterQueue::Background, StaRxRouterOperation::Scanning).is_err());
    let waiting =
        router.start_operation(RxRouterQueue::Background, StaRxRouterOperation::Scanning, false);
    assert!(waiting.is_none());
    scanning.complete(&mut router);
    assert!(router.take_completion_signal());
    assert!(!router.take_completion_signal());
    assert!(router
        .start_operation(RxRouterQueue::Background, StaRxRouterOperation::Scanning, true)
        .is_some());
}

/// Message 1, or message 3 with a group key that is protected with the given keys.
fn key_frame(
    counter: u64,
    nonce: [u8; 32],
    information: u16,
    keys: Option<(&[u8; 16], &[u8; 16])>,
) -> Vec<u8> {
    let mut bytes = vec![0; 131];
    if keys.is_none() {
        bytes[..2].copy_from_slice(&[8, 2]);
        bytes[4..10].copy_from_slice(&OWN.0);
        bytes[10..16].copy_from_slice(&AP.0);
        bytes[16..22].copy_from_slice(&AP.0);
        bytes[24..32].copy_from_slice(&[0xaa, 0xaa, 3, 0, 0, 0, 0x88, 0x8e]);
        bytes[32..37].copy_from_slice(&[2, 3, 0, 95, 2]);
        bytes[37..39].copy_from_slice(&information.to_be_bytes());
        bytes[39..41].copy_from_slice(&[0, 16]);
        bytes[41..49].copy_from_slice(&counter.to_be_bytes());
        bytes[49..81].copy_from_slice(&nonce);
        return bytes;
    }
    let frame = DataFrame {
        header: DataFrameHeader {
            subtype: DataFrameSubtype::Data,
            fcf_flags: FCFFlags::new().with_from_ds(true),
            address_1: WireAddress(OWN.0),
            address_2: WireAddress(AP.0),
            address_3: WireAddress(AP.0),
            ..Default::default()
        },
        payload: Some(SnapLlcFrame {
            oui: [0; 3],
            ether_type: EtherType::Eapol,
            payload: EapolKeyFrame {
                key_information: KeyInformation::from_bits(information),
                key_length: 16,
                key_replay_counter: counter,
                key_nonce: nonce,
                key_mic: [0u8; 16],
                key_data: ElementChainEnd {
                    inner: GtkKde {
                        gtk_info: GtkInfo::new().with_key_id(2),
                        gtk: [0x77u8; 16],
                        _phantom: PhantomData,
                    },
                },
                key_iv: 0,
                key_rsc: 0,
                _phantom: PhantomData,
            },
            _phantom: PhantomData,
        }),
        _phantom: PhantomData,
    };
    let mut buffer = vec![0; 512];
    let (kck, kek) = keys.unwrap();
    let written =
        serialize_eapol_data_frame(Some(kck), Some(kek), frame, &mut buffer, &mut [0; 512])
            .unwrap();
    buffer.truncate(written);
    buffer
}

#[test]
fn recorded_frames_and_outcomes_have_numbers() {
    assert_eq!(route_kind(&key_frame(1, [0; 32], 0x008a, None)), 1);
    let mut deauthentication = beacon(AP, "", 6, &[]);
    assert_eq!(route_kind(&deauthentication), 0);
    deauthentication[0] = 0xc0;
    assert_eq!(route_kind(&deauthentication), 2);
    assert_eq!(route_kind(&[]), 0);
    assert_eq!(tx_outcome(&Some(Ok(3))), 0);
    assert_eq!(tx_outcome(&Some(Err(TxError::AckTimeout))), 1);
    assert_eq!(tx_outcome(&None), 2);
}

#[test]
fn four_way_handshake_runs_to_completion() {
    let parameters = HandshakeParameters {
        pmk: [0x11; 32],
        own_address: OWN,
        bssid: AP,
        supplicant_nonce: [0x22; 32],
    };
    let rate = TxPhyRate::Ofdm(6);
    let mut scratch = [0; 512];
    let mut buffer = vec![0; 1600];
    let (state, action) = handshake_frame(
        &parameters,
        HandshakeState::WaitMessage1,
        &mut key_frame(1, [0x33; 32], 0x008a, None),
        &mut scratch,
        &mut buffer,
        rate,
    );
    let HandshakeAction::Transmit(message_2) = action else {
        panic!("message 2");
    };
    assert_eq!(message_2.length, 153);
    assert_eq!(&buffer[49..81], &[0x22; 32]);
    assert_eq!(&buffer[131..153], &RSN_WPA2);
    let (state, action) = handshake_sent(&parameters, state, Some(Ok(0)));
    assert!(matches!(action, HandshakeAction::Receive));
    // The access point derives the same key.
    let mut ptk = [0; 48];
    derive_ptk(&[0x11; 32], &AP.0, &OWN.0, &[0x33; 32], &[0x22; 32], &mut ptk);
    let kck: [u8; 16] = ptk[..16].try_into().unwrap();
    let kek: [u8; 16] = ptk[16..32].try_into().unwrap();
    let (state, action) = handshake_frame(
        &parameters,
        state,
        &mut key_frame(2, [0x33; 32], 0x13ca, Some((&kck, &kek))),
        &mut scratch,
        &mut buffer,
        rate,
    );
    let HandshakeAction::Transmit(message_4) = action else {
        panic!("message 4");
    };
    assert_eq!(message_4.length, 131);
    let (state, action) = handshake_sent(&parameters, state, Some(Ok(0)));
    assert!(matches!(state, HandshakeState::Finished));
    let HandshakeAction::Complete(associations, replay) = action else {
        panic!("complete");
    };
    assert_eq!(associations.ptksa.key, ptk);
    assert_eq!(associations.pairwise_temporal_key(), &ptk[32..]);
    assert_eq!(associations.active_group_key().key, [0x77; 16]);
    assert_eq!(associations.active_group_id, 2);
    assert_eq!(replay.counter(), 2);
}

#[test]
fn message_2_is_repeated_with_the_nonce_and_key_of_the_exchange() {
    let parameters = HandshakeParameters {
        pmk: [0x11; 32],
        own_address: OWN,
        bssid: AP,
        supplicant_nonce: [0x22; 32],
    };
    let mut ptk = [0; 48];
    derive_ptk(&[0x11; 32], &AP.0, &OWN.0, &[0x33; 32], &[0x22; 32], &mut ptk);
    let kck: [u8; 16] = ptk[..16].try_into().unwrap();
    let mut state = HandshakeState::WaitMessage1;
    for counter in [7, 7, 9] {
        let mut buffer = vec![0; 1600];
        let (next, action) = handshake_frame(
            &parameters,
            state,
            &mut key_frame(counter, [0x33; 32], 0x008a, None),
            &mut [0; 512],
            &mut buffer,
            TxPhyRate::Ofdm(6),
        );
        let HandshakeAction::Transmit(message_2) = action else {
            panic!("message 2");
        };
        let message = &mut buffer[..message_2.length];
        let akm = IEEE80211AkmType::Psk;
        let other = &[0; 16];
        let refused = deserialize_eapol_data_frame(
            Some(other), None, &mut message.to_vec(), &mut [0; 512], akm, false,
        )
        .is_err();
        assert!(refused);
        let read =
            deserialize_eapol_data_frame(Some(&kck), None, message, &mut [0; 512], akm, false)
                .unwrap();
        assert_eq!((read.key_replay_counter, read.key_nonce), (counter, [0x22; 32]));
        let (next, action) = handshake_sent(&parameters, next, Some(Ok(0)));
        assert!(matches!(action, HandshakeAction::Receive));
        state = next;
    }
    // An older counter, or another nonce, is not of this exchange.
    for (counter, nonce) in [(8, [0x33; 32]), (10, [0x34; 32])] {
        let (next, action) = handshake_frame(
            &parameters,
            state,
            &mut key_frame(counter, nonce, 0x008a, None),
            &mut [0; 512],
            &mut vec![0; 1600],
            TxPhyRate::Ofdm(6),
        );
        assert!(matches!(action, HandshakeAction::Receive));
        state = next;
    }
}

#[test]
fn handshake_fails_without_completion() {
    let parameters = HandshakeParameters {
        pmk: [0x11; 32],
        own_address: OWN,
        bssid: AP,
        supplicant_nonce: [0x22; 32],
    };
    for (completion, expected) in [
        (Some(Err(TxError::AckTimeout)), StaError::AckTimeout),
        (None, StaError::TxCompletionLost),
    ] {
        let (state, _) = handshake_frame(
            &parameters,
            HandshakeState::WaitMessage1,
            &mut key_frame(1, [0x33; 32], 0x008a, None),
            &mut [0; 512],
            &mut vec![0; 1600],
            TxPhyRate::Ofdm(6),
        );
        let (_, action) = handshake_sent(&parameters, state, completion);
        let HandshakeAction::Fail(error) = action else {
            panic!("failure");
        };
        assert_eq!(error, expected);
    }
}

#[test]
fn receive_floor_and_temporal_key_of_associations() {
    let mut association =
        TransientKeySecurityAssociation::<16, false>::new([7; 16], 2).with_receive_floor(10);
    assert!(!association.update_and_validate_replay_counter(10));
    assert!(association.update_and_validate_replay_counter(11));
    assert_eq!(association.tk(0x02ac_0f00, 0x04ac_0f00), &[7; 16]);
}

#[test]
fn scanning_mode_is_set() {
    let mut rx_interface = RxInterface::new();
    rx_interface.set_scanning_mode(ScanningMode::Disabled);
    assert_eq!(rx_interface.scanning_mode, ScanningMode::Disabled);
}

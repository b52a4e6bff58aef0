//! Tests of key exchanges and replay protection of the station, with the radio played by the test.
use core::marker::PhantomData;
use foa::frame::{open_body, DataBody};
use foa::lmac::crypto::{KeyCommand, KeySlot, KeySlotManager, KeyType};
use foa::lmac::LMacInterfaceControl;
use foa::mac::MACAddress;
use foa::radio::{TxError, TxPhyRate};
use foa::sta::operations::handshake::{
    eapol_send_result, process_message_3, send_group_message_2, send_group_request, send_message_2,
    send_message_4, Message3Step,
};
use foa::sta::rsn::{
    CryptoState, SecurityAssociations, TransientKeySecurityAssociation, CIPHER_CCMP_128, GTK_LENGTH,
    PTK_LENGTH, WPA2_PSK_AKM,
};
use foa::sta::rsn_group::{is_key_frame, normalize, protect_eapol};
use foa::sta::rsn_initial::InitialHandshake;
use foa::sta::rsn_retransmit::Message3Replay;
use foa::sta::runner::{
    handle_data_rx, handle_eapol_retry, process_potentially_wrapped_payload, EapolReply,
};
use foa::sta::{StaError, StaTxRx};
use foa::util::operations::deauth::Transmission;
use ieee80211::common::{DataFrameSubtype, FCFFlags};
use ieee80211::crypto::eapol::{EapolKeyFrame, KeyInformation};
use ieee80211::crypto::{
    deserialize_eapol_data_frame, serialize_eapol_data_frame, CryptoHeader, MicState,
};
use ieee80211::data_frame::header::DataFrameHeader;
use ieee80211::data_frame::{DataFrame, DataFrameReadPayload};
use ieee80211::elements::element_chain::ElementChainEnd;
use ieee80211::elements::kde::{GtkInfo, GtkKde};
use ieee80211::elements::rsn::IEEE80211AkmType;
use ieee80211::mac_parser::MACAddress as WireAddress;
use ieee80211::scroll::{Pread, Pwrite};
use llc_rs::{EtherType, SnapLlcFrame};

const OWN: MACAddress = MACAddress([2, 0, 0, 0, 0, 1]);
const AP: MACAddress = MACAddress([2, 0, 0, 0, 0, 2]);
const KCK: [u8; 16] = [0; 16];
const KEK: [u8; 16] = [0; 16];
const GTK: [u8; 16] = [0; 16];
const ANONCE: [u8; 32] = [0x31; 32];
const SNONCE: [u8; 32] = [0x32; 32];

struct Station {
    sta_tx_rx: StaTxRx,
    manager: KeySlotManager,
    delivered: Vec<Vec<u8>>,
    group_replies: Vec<u64>,
    group_reply_packet_numbers: Vec<u8>,
    replies: Vec<Vec<u8>>,
}

impl Station {
    fn new() -> Self {
        let mut manager = KeySlotManager::new();
        let mut slots = Vec::new();
        for _ in 0..5 {
            let key_slot = manager.acquire_key_slot().unwrap() as u8;
            slots.push(KeySlot { key_slot, interface: 0 });
        }
        let ptk_key_slot = slots.pop().unwrap();
        let gtk_key_slots: [KeySlot; 4] = slots.try_into().unwrap();
        let security_associations = SecurityAssociations {
            ptksa: TransientKeySecurityAssociation::new([0; PTK_LENGTH], 0),
            group_keys: [
                None,
                Some(TransientKeySecurityAssociation::new([0; GTK_LENGTH], 1)),
                None,
                None,
            ],
            active_group_id: 1,
            akm_suite: WPA2_PSK_AKM,
            cipher_suite: CIPHER_CCMP_128,
        };
        let crypto_state = CryptoState::new(
            &mut manager,
            gtk_key_slots,
            ptk_key_slot,
            AP.0,
            security_associations,
            Message3Replay::new(ANONCE, SNONCE, 7),
        );
        assert_eq!(manager.take_commands().len(), 2);
        let mut sta_tx_rx = StaTxRx::new(LMacInterfaceControl { interface: 0 });
        sta_tx_rx.crypto_state = Some(crypto_state);
        Self {
            sta_tx_rx,
            manager,
            delivered: Vec::new(),
            group_replies: Vec::new(),
            group_reply_packet_numbers: Vec::new(),
            replies: Vec::new(),
        }
    }

    fn crypto(&mut self) -> &mut CryptoState {
        self.sta_tx_rx.crypto_state.as_mut().unwrap()
    }

    fn receive(&mut self, bytes: &[u8]) -> Option<()> {
        let delivery = handle_data_rx(&mut self.sta_tx_rx, bytes, 1514);
        self.delivered.extend(delivery.frames);
        delivery.complete.then_some(())
    }

    fn handle(&mut self, mut frame: Vec<u8>) {
        let mut buffer = vec![0; 1600];
        match handle_eapol_retry(
            &mut self.sta_tx_rx,
            &mut self.manager,
            &mut frame,
            &mut [0; 512],
            &mut buffer,
            OWN,
            AP,
        ) {
            EapolReply::Nothing => {}
            EapolReply::Message4(transmission) => {
                self.replies.push(buffer[..transmission.length].to_vec());
            }
            EapolReply::GroupMessage2(transmission) => {
                assert_eq!(transmission.unwrap().mac_parameters.key_slot_index, Some(4));
                let counter = buffer[49..57].try_into().unwrap();
                self.group_reply_packet_numbers.push(buffer[24]);
                self.group_replies.push(u64::from_be_bytes(counter));
            }
        }
    }

    fn deliver(&mut self, frame: Vec<u8>) {
        assert!(is_key_frame(&frame));
        self.handle(frame);
    }

    fn key_writes(&mut self) -> Vec<u8> {
        self.manager
            .take_commands()
            .into_iter()
            .filter_map(|command| match command {
                KeyCommand::Install { key_id, parameters, .. } => {
                    assert_eq!(parameters.key_type, KeyType::Group);
                    Some(key_id)
                }
                _ => None,
            })
            .collect()
    }

    fn validate_pairwise(&mut self, pn: u64) -> bool {
        self.crypto().security_associations.ptksa.update_and_validate_replay_counter(pn)
    }

    fn validate_group(&mut self, id: usize, pn: u64) -> bool {
        self.crypto().security_associations.group_keys[id]
            .as_mut()
            .unwrap()
            .update_and_validate_replay_counter(pn)
    }

    fn next_packet_number(&mut self) -> u64 {
        self.crypto().security_associations.ptksa.next_packet_number()
    }
}

fn mpdu(pn: u64, group: bool, retry: bool, amsdu: bool) -> Vec<u8> {
    let mut payload = Vec::new();
    if amsdu {
        // Two complete software-deaggregated subframes in one protected MPDU.
        for byte in [0x41, 0x42] {
            payload.extend([2, 0, 0, 0, 0, 1]);
            payload.extend([2, 0, 0, 0, 0, 2]);
            payload.extend([2, 0]);
            payload.extend([byte, byte]);
        }
    } else {
        payload.extend([0xaa, 0xaa, 3, 0, 0, 0, 8, 0]);
        payload.extend(b"synthetic-network-payload");
    }
    let data = DataFrame {
        header: DataFrameHeader {
            subtype: if amsdu { DataFrameSubtype::QoSData } else { DataFrameSubtype::Data },
            fcf_flags: FCFFlags::new().with_from_ds(true).with_retry(retry),
            address_1: WireAddress(if group { [0xff; 6] } else { [2, 0, 0, 0, 0, 1] }),
            address_2: WireAddress([2, 0, 0, 0, 0, 2]),
            address_3: WireAddress([2, 0, 0, 0, 0, 3]),
            qos: amsdu.then_some([0x80, 0]),
            ..Default::default()
        },
        payload: Some(payload.as_slice()),
        _phantom: PhantomData,
    }
    .crypto_wrap(CryptoHeader::new(pn, u8::from(group)).unwrap(), MicState::NotPresent);
    let mut encoded = vec![0; 1600];
    let len = encoded.pwrite(data, 0).unwrap();
    encoded.truncate(len);
    encoded
}

fn key_with(
    counter: u64,
    nonce: [u8; 32],
    gtk: &[u8],
    key_id: u8,
    information: u16,
    rsc: u64,
) -> Vec<u8> {
    let frame = DataFrame {
        header: DataFrameHeader {
            subtype: DataFrameSubtype::Data,
            fcf_flags: FCFFlags::new().with_from_ds(true),
            address_1: WireAddress(OWN.0),
            address_2: WireAddress(AP.0),
            address_3: WireAddress(AP.0),
            ..Default::default()
        },
        payload: Some(SnapLlcFrame {
            oui: [0; 3],
            ether_type: EtherType::Eapol,
            payload: EapolKeyFrame {
                key_information: KeyInformation::from_bits(information),
                key_length: 16,
                key_replay_counter: counter,
                key_nonce: nonce,
                key_mic: [0u8; 16],
                key_data: ElementChainEnd {
                    inner: GtkKde {
                        gtk_info: GtkInfo::new().with_key_id(key_id),
                        gtk,
                        _phantom: PhantomData,
                    },
                },
                key_iv: 0,
                // The counter stands on the wire with its least significant byte first.
                key_rsc: rsc.swap_bytes(),
                _phantom: PhantomData,
            },
            _phantom: PhantomData,
        }),
        _phantom: PhantomData,
    };
    let mut buffer = vec![0; 1600];
    let written =
        serialize_eapol_data_frame(Some(&KCK), Some(&KEK), frame, &mut buffer, &mut [0; 512])
            .unwrap();
    buffer.truncate(written);
    buffer
}

fn m3_with(counter: u64, nonce: [u8; 32], gtk: [u8; 16], key_id: u8) -> Vec<u8> {
    key_with(counter, nonce, &gtk, key_id, 0x13ca, 0)
}

fn m3(counter: u64) -> Vec<u8> {
    m3_with(counter, ANONCE, GTK, 1)
}

fn g1(counter: u64, key: u8, id: u8, rsc: u64) -> Vec<u8> {
    key_with(counter, [0x44; 32], &[key; 16], id, 0x1382, rsc)
}

fn protected(bytes: &[u8], pn: u64) -> Vec<u8> {
    let data = bytes.pread::<DataFrame>(0).unwrap();
    let data = data.crypto_wrap(CryptoHeader::new(pn, 0).unwrap(), MicState::NotPresent);
    let mut out = vec![0; 1600];
    let len = out.pwrite(data, 0).unwrap();
    out.truncate(len);
    out
}

fn accept(state: &mut Message3Replay, buffer: &mut [u8]) -> Option<u64> {
    state.accept(buffer, &mut [0; 512], &KCK, &KEK, &GTK, 1, OWN, AP)
}

fn fresh() -> Message3Replay {
    Message3Replay::new(ANONCE, SNONCE, 7)
}

// Independent unencrypted M1 wire fixture: 24-byte 802.11 header, LLC,
// 4-byte EAPOL header, then the 95-byte WPA2 descriptor with no key data.
fn m1(counter: u64) -> Vec<u8> {
    let mut bytes = vec![0; 131];
    bytes[0] = 8;
    bytes[1] = 2;
    bytes[4..10].copy_from_slice(&OWN.0);
    bytes[10..16].copy_from_slice(&AP.0);
    bytes[16..22].copy_from_slice(&AP.0);
    bytes[24..32].copy_from_slice(&[0xaa, 0xaa, 3, 0, 0, 0, 0x88, 0x8e]);
    bytes[32..41].copy_from_slice(&[2, 3, 0, 95, 2, 0, 0x8a, 0, 16]);
    bytes[41..49].copy_from_slice(&counter.to_be_bytes());
    bytes[49..81].copy_from_slice(&ANONCE);
    bytes
}

/// The replay counter and the nonce of a key frame, if its MIC is of the given key.
fn read_key_frame(frame: &mut [u8], kck: &[u8; 16]) -> Option<(u64, [u8; 32])> {
    let akm = IEEE80211AkmType::Psk;
    let key_frame =
        deserialize_eapol_data_frame(Some(kck), None, frame, &mut [0; 512], akm, false).ok()?;
    Some((key_frame.key_replay_counter, key_frame.key_nonce))
}

fn pending() -> InitialHandshake {
    InitialHandshake::from_message_1(&m1(7), OWN, AP).unwrap()
}

#[test]
fn repeated_protected_frame_reaches_network_once_for_either_retry_flag() {
    for retry in [false, true] {
        let mut station = Station::new();
        assert_eq!(station.receive(&mpdu(1, false, false, false)), Some(()));
        station.receive(&mpdu(1, false, retry, false));
        assert_eq!(station.delivered.len(), 1, "equal PN must not deliver a second MSDU");
    }
}

#[test]
fn zero_is_not_a_new_packet_and_first_pn_one_is_accepted() {
    let mut association = TransientKeySecurityAssociation::<16, false>::new([0; 16], 1);
    assert!(!association.update_and_validate_replay_counter(0));
    assert!(association.update_and_validate_replay_counter(1));
    assert!(!association.update_and_validate_replay_counter(1));
    assert_eq!(association.next_packet_number(), 1);
    assert_eq!(association.next_packet_number(), 2);
}

#[test]
fn equal_and_lower_rejections_do_not_advance_or_reset_the_counter() {
    let mut association = TransientKeySecurityAssociation::<16, true>::new([0; 16], 0);
    assert!(association.update_and_validate_replay_counter(100));
    assert!(!association.update_and_validate_replay_counter(100));
    assert!(!association.update_and_validate_replay_counter(99));
    assert_eq!(association.replay_counter, 100);
    assert!(association.update_and_validate_replay_counter(101));
}

#[test]
fn group_and_pairwise_replay_counters_are_independent() {
    let mut station = Station::new();
    assert_eq!(station.receive(&mpdu(100, false, false, false)), Some(()));
    assert_eq!(station.receive(&mpdu(1, true, false, false)), Some(()));
    assert_eq!(station.receive(&mpdu(1, true, true, false)), None);
    assert_eq!(station.receive(&mpdu(101, false, false, false)), Some(()));
    assert_eq!(station.delivered.len(), 3);
}

#[test]
fn one_amsdu_payload_gate_preserves_all_subframes() {
    let mut station = Station::new();
    let bytes = mpdu(1, false, false, true);
    let wrapped = || -> DataBody<'_> { open_body(&bytes).unwrap() };
    let Some(body) =
        process_potentially_wrapped_payload(&mut station.sta_tx_rx, false, 0, wrapped())
    else {
        panic!("first aggregate must pass the payload gate");
    };
    assert!(body.amsdu);
    let Ok(DataFrameReadPayload::AMSDU(frames)) =
        body.payload.pread_with::<DataFrameReadPayload>(0, true)
    else {
        panic!("aggregate");
    };
    assert_eq!(
        frames.map(|frame| frame.payload.to_vec()).collect::<Vec<_>>(),
        [vec![0x41; 2], vec![0x42; 2]]
    );
    assert!(
        process_potentially_wrapped_payload(&mut station.sta_tx_rx, false, 0, wrapped()).is_none()
    );
}

#[test]
fn new_association_gets_its_own_fresh_counter() {
    let mut old = TransientKeySecurityAssociation::<16, true>::new([0; 16], 0);
    assert!(old.update_and_validate_replay_counter(500));
    let mut new = TransientKeySecurityAssociation::<16, true>::new([1; 16], 0);
    assert!(new.update_and_validate_replay_counter(1));
    assert!(!old.update_and_validate_replay_counter(1));
}

#[test]
fn unprotected_data_path_is_unchanged() {
    let mut station = Station::new();
    let mut bytes = mpdu(0, false, false, false);
    bytes[1] &= !0x40;
    // Without the flag the crypto header is part of the body.
    bytes.drain(24..32);
    assert_eq!(station.receive(&bytes), Some(()));
    assert_eq!(station.receive(&bytes), Some(()));
    assert_eq!(station.delivered.len(), 2);
}

#[test]
fn authenticated_g1_retains_old_key_and_initializes_new_rsc_without_touching_ptk() {
    let mut station = Station::new();
    assert!(station.validate_group(1, 80));
    assert!(station.validate_pairwise(90));
    assert_eq!(station.next_packet_number(), 1);
    let floor = 0x060504030201;
    station.deliver(protected(&g1(8, 0x51, 2, floor), 91));
    assert_eq!(station.group_replies, [8]);
    assert_eq!(station.key_writes(), [2]);
    assert_eq!(station.crypto().security_associations.active_group_id, 2);
    assert_eq!(station.crypto().security_associations.group_key(1).unwrap().key, [0; 16]);
    assert!(!station.validate_group(1, 80));
    assert!(station.validate_group(1, 81));
    assert!(!station.validate_group(2, floor));
    assert!(station.validate_group(2, floor + 1));
    assert!(!station.validate_pairwise(91));
    // The next packet number went into the reply.
    assert_eq!(station.group_reply_packet_numbers, [2]);
    assert_eq!(station.next_packet_number(), 3);
}

#[test]
fn same_key_retries_acknowledge_without_reinstall_or_rsc_reset() {
    let mut station = Station::new();
    station.deliver(g1(8, 0x51, 2, 4));
    assert!(station.validate_group(2, 70));
    station.deliver(g1(8, 0x51, 2, 4)); // exact replay of the last exchange
    station.deliver(g1(9, 0x51, 2, 0)); // AP retry with increasing EAPOL counter
    station.deliver(g1(8, 0x51, 2, 4)); // now stale
    station.deliver(g1(9, 0x52, 2, 0)); // equal counter, different key
    station.deliver(g1(10, 0x51, 3, 0)); // existing key at a different ID
    assert_eq!(station.group_replies, [8, 8, 9]);
    assert_eq!(station.key_writes(), [2]);
    assert_eq!(station.crypto().message3_replay.counter(), 9);
    assert!(!station.validate_group(2, 70));
    assert!(station.crypto().security_associations.group_key(3).is_none());
}

#[test]
fn bad_mic_unwrap_lengths_and_envelopes_cannot_install_or_advance_eapol() {
    let mut station = Station::new();
    let valid = g1(8, 0x51, 2, 4);
    for n in 0..valid.len() {
        station.handle(valid[..n].to_vec());
    }
    for offset in [4, 10, 32 + 81, 32 + 99, 32 + 97, 32 + 2] {
        let mut frame = valid.clone();
        frame[offset] ^= 1;
        station.deliver(frame);
    }
    station.deliver(key_with(8, [0; 32], &[1; 15], 2, 0x1382, 0));
    station.deliver(key_with(8, [0; 32], &[1; 17], 2, 0x1382, 0));
    station.deliver(g1(8, 0x51, 2, 1u64 << 48));
    assert!(station.group_replies.is_empty());
    assert!(station.key_writes().is_empty());
    assert_eq!(station.crypto().message3_replay.counter(), 7);
    station.deliver(valid);
    assert_eq!(station.group_replies, [8]);
}

#[test]
fn protected_eapol_requires_fresh_pairwise_pn_and_correct_iv() {
    let mut station = Station::new();
    let frame = protected(&g1(8, 0x51, 2, 4), 40);
    station.deliver(frame.clone());
    station.deliver(frame.clone());
    let mut bad_id = protected(&g1(9, 0x52, 1, 0), 41);
    bad_id[27] |= 0x40;
    station.deliver(bad_id);
    let mut reserved = protected(&g1(9, 0x52, 1, 0), 41);
    reserved[26] = 1;
    station.deliver(reserved);
    assert_eq!(station.group_replies, [8]);
    station.deliver(protected(&g1(9, 0x52, 1, 0), 41));
    assert_eq!(station.group_replies, [8, 9]);
}

#[test]
fn actual_data_routing_selects_wire_key_id_and_keeps_independent_floors() {
    let mut station = Station::new();
    station.deliver(g1(8, 0x51, 2, 10));
    for (id, pn, accepted) in [
        (1, 80, true),
        (2, 10, false),
        (2, 11, true),
        (1, 79, false),
        (2, 11, false),
        (3, 99, false),
        (1, 81, true),
    ] {
        let mut frame = mpdu(pn, true, false, false);
        frame[27] = 0x20 | id << 6;
        assert_eq!(station.receive(&frame).is_some(), accepted, "key {id} PN {pn}");
    }
    assert_eq!(station.delivered.len(), 3);
}

#[test]
fn protected_transmit_preserves_inner_eapol_and_reserves_ccmp_mic() {
    let plain = g1(8, 0x51, 2, 4);
    let mut tx = vec![0xaa; 512];
    tx[..plain.len()].copy_from_slice(&plain);
    let length = protect_eapol(&mut tx, plain.len(), 0x060504030201).unwrap();
    assert_eq!(length, plain.len() + 16);
    assert_eq!(&tx[24..32], &[1, 2, 0, 0x20, 3, 4, 5, 6]);
    assert_eq!(&tx[32..length - 8], &plain[24..]);
    assert_eq!(&tx[length - 8..length], &[0; 8]);
    assert!(tx[1] & 0x40 != 0);
    // Model the MAC's receive contract: hardware strips the MIC, retaining IV.
    let (normalized, pn) = normalize(&mut tx[..length - 8], OWN, AP).unwrap();
    assert_eq!(pn, Some(0x060504030201));
    assert_eq!(&tx[..normalized], &plain);
    for pn in [0, 1u64 << 48] {
        assert!(protect_eapol(&mut tx, normalized, pn).is_none());
    }
    assert!(protect_eapol(&mut plain.clone(), plain.len(), 1).is_none());
    assert!(protect_eapol(&mut tx, usize::MAX, 1).is_none());
}

#[test]
fn only_newer_authenticated_m3_retries_advance_the_eapol_counter() {
    let mut state = fresh();
    assert_eq!(accept(&mut state, &mut m3(7)), None);
    assert_eq!(accept(&mut state, &mut m3(6)), None);
    assert_eq!(accept(&mut state, &mut m3(8)), Some(8));
    assert_eq!(accept(&mut state, &mut m3(8)), None);
    assert_eq!(accept(&mut state, &mut m3(9)), Some(9));
}

#[test]
fn tampered_mic_and_authenticated_key_or_nonce_changes_are_rejected() {
    let mut state = fresh();
    let mut bad_mic = m3(99);
    bad_mic[32 + 81] ^= 1;
    for mut invalid in [
        bad_mic,
        m3_with(99, [0x42; 32], GTK, 1),
        m3_with(99, ANONCE, [0x43; 16], 1),
        m3_with(99, ANONCE, GTK, 2),
    ] {
        assert_eq!(accept(&mut state, &mut invalid), None);
    }
    assert_eq!(
        accept(&mut state, &mut m3(8)),
        Some(8),
        "rejected input must not poison the replay counter"
    );
}

#[test]
fn headers_from_another_station_ap_or_direction_cannot_trigger_m4() {
    for offset in [4, 10] {
        let mut frame = m3(8);
        frame[offset] ^= 4;
        assert_eq!(accept(&mut fresh(), &mut frame), None);
    }
    for flags in [0, 1, 3, 0x42] {
        let mut frame = m3(8);
        frame[1] = flags;
        assert_eq!(accept(&mut fresh(), &mut frame), None);
    }
}

#[test]
fn malformed_lengths_and_short_scratch_never_enter_unchecked_decoder_slices() {
    let valid = m3(8);
    for len in 0..valid.len() {
        assert_eq!(accept(&mut fresh(), &mut valid[..len].to_vec()), None);
    }
    for offset in [32 + 2, 32 + 97] {
        for value in [0u16, 1, 7, 8, 16, 23, 24, 31, 33, 511, 512, 65535] {
            let mut frame = valid.clone();
            frame[offset..offset + 2].copy_from_slice(&value.to_be_bytes());
            assert_eq!(accept(&mut fresh(), &mut frame), None);
        }
    }
    let mut state = fresh();
    assert_eq!(state.accept(&mut valid.clone(), &mut [], &KCK, &KEK, &GTK, 1, OWN, AP), None);
    assert_eq!(accept(&mut state, &mut valid.clone()), Some(8));
}

#[test]
fn actual_background_handler_replies_without_reinstalling_or_resetting_data_counters() {
    let mut station = Station::new();
    assert!(station.validate_pairwise(45));
    assert!(station.validate_group(1, 63));
    for n in 1..=5 {
        assert_eq!(station.next_packet_number(), n);
    }
    station.handle(m3(8));
    let mut expected = vec![0; 1600];
    let transmission =
        send_message_4(&mut expected, TxPhyRate::Ofdm(6), AP, OWN, &KCK, &SNONCE, 8);
    assert_eq!(station.replies, [expected[..transmission.length].to_vec()]);
    // A duplicate EAPOL replay counter is ignored by the actual handler too.
    station.handle(m3(8));
    assert_eq!(station.replies.len(), 1);
    assert!(!station.validate_pairwise(45));
    assert!(!station.validate_group(1, 63));
    assert_eq!(station.next_packet_number(), 6);
    assert_eq!(station.crypto().security_associations.ptksa.key, [0; PTK_LENGTH]);
    assert_eq!(station.crypto().security_associations.group_key(1).unwrap().key, GTK);
    assert!(station.key_writes().is_empty());
}

#[test]
fn m1_retries_keep_the_exchange_and_allow_equal_or_increasing_counters() {
    let mut state = pending();
    for count in [7, 8, 8, 9] {
        assert_eq!(state.message_1_retry(&m1(count), OWN, AP), Some(count));
        assert_eq!(state.authenticator_nonce, ANONCE);
    }
    assert_eq!(state.message_1_retry(&m1(8), OWN, AP), None);
    let mut changed = m1(99);
    changed[49] ^= 1;
    assert_eq!(state.message_1_retry(&changed, OWN, AP), None);
    assert_eq!(state.replay_counter, 9);
}

#[test]
fn m1_wrong_addresses_flags_and_truncations_are_rejected() {
    let valid = m1(7);
    for length in 0..valid.len() {
        assert!(InitialHandshake::from_message_1(&valid[..length], OWN, AP).is_none());
    }
    for offset in [4, 10, 24, 30, 32, 33, 34, 36, 39, 129] {
        let mut invalid = valid.clone();
        invalid[offset] ^= 0x80;
        assert!(
            InitialHandshake::from_message_1(&invalid, OWN, AP).is_none(),
            "offset {offset}"
        );
    }
    for flags in [0, 1, 3, 0x42] {
        let mut invalid = valid.clone();
        invalid[1] = flags;
        assert!(InitialHandshake::from_message_1(&invalid, OWN, AP).is_none());
    }
    for flags in [0x008b_u16, 0x018a, 0x13ca, 0x048a, 0x088a, 0x208a, 0x0082] {
        let mut invalid = valid.clone();
        invalid[37..39].copy_from_slice(&flags.to_be_bytes());
        assert!(InitialHandshake::from_message_1(&invalid, OWN, AP).is_none());
    }
}

#[test]
fn initial_m3_requires_matching_nonce_new_counter_and_valid_mic_without_poisoning_state() {
    let mut state = pending();
    let mut bad_mic = m3(99);
    bad_mic[113] ^= 1;
    for mut invalid in [m3(6), m3(7), m3_with(99, [4; 32], [0; 16], 1), bad_mic] {
        assert!(state.message_3(&mut invalid, &mut [0; 512], &KCK, &KEK, OWN, AP).is_none());
        assert_eq!(state.replay_counter, 7);
    }
    let key = state.message_3(&mut m3(8), &mut [0; 512], &KCK, &KEK, OWN, AP).unwrap();
    assert_eq!((key.counter, key.gtk, key.gtk_id), (8, [0; 16], 1));
}

#[test]
fn initial_m3_checks_bounds_before_decoding() {
    let valid = m3(8);
    for length in 0..valid.len() {
        assert!(pending()
            .message_3(&mut valid[..length].to_vec(), &mut [0; 512], &KCK, &KEK, OWN, AP)
            .is_none());
    }
    for offset in [34, 129] {
        for value in [0_u16, 1, 7, 8, 16, 23, 31, 33, 511, 65535] {
            let mut invalid = valid.clone();
            invalid[offset..offset + 2].copy_from_slice(&value.to_be_bytes());
            assert!(pending()
                .message_3(&mut invalid, &mut [0; 512], &KCK, &KEK, OWN, AP)
                .is_none());
        }
    }
    assert!(pending()
        .message_3(&mut valid.clone(), &mut [], &KCK, &KEK, OWN, AP)
        .is_none());
}

#[test]
fn actual_initial_wait_loop_resends_m2_with_original_nonce_and_kck_then_accepts_m3() {
    let mut other_nonce = m1(99);
    other_nonce[49] ^= 1;
    let mut frames = vec![
        vec![0; 8],
        m1(7),
        m1(6),
        other_nonce,
        m1(8),
        m1(8),
        m3(7),
        m3(9),
    ]
    .into_iter();
    let mut state = loop {
        let frame = frames.next().expect("unexpected extra receive");
        if let Some(state) = InitialHandshake::from_message_1(&frame, OWN, AP) {
            break state;
        }
    };
    let mut sent = Vec::new();
    let mut kck_matches = 0;
    let gtk = loop {
        let mut frame = frames.next().expect("unexpected extra receive");
        match process_message_3(&mut state, &mut frame, &mut [0; 512], &KCK, &KEK, OWN, AP) {
            Message3Step::Ignored => {}
            Message3Step::ResendMessage2(counter) => {
                let mut message_2 = vec![0; 1600];
                let rate = TxPhyRate::Ofdm(6);
                let transmission =
                    send_message_2(&mut message_2, rate, AP, OWN, &KCK, &SNONCE, counter);
                message_2.truncate(transmission.length);
                assert_eq!(eapol_send_result(Some(Ok(0))), Ok(()));
                let mut altered = message_2.clone();
                assert!(read_key_frame(&mut altered, &[1; 16]).is_none());
                if let Some((counter, nonce)) = read_key_frame(&mut message_2, &KCK) {
                    kck_matches += 1;
                    sent.push((counter, KCK, nonce));
                }
            }
            Message3Step::Accepted(gtk) => break gtk,
        }
    };
    assert_eq!(kck_matches, 2);
    assert_eq!(sent, [(8, KCK, SNONCE), (8, KCK, SNONCE)]);
    assert_eq!((gtk.key, gtk.key_id, state.replay_counter), ([0; 16], 1, 9));
    assert!(frames.next().is_none());
}

#[test]
fn actual_wait_loop_propagates_m2_transmit_failure() {
    let mut state = pending();
    let mut frames = vec![m1(8), m3(9)].into_iter();
    let result = loop {
        let mut frame = frames.next().expect("unexpected extra receive");
        match process_message_3(&mut state, &mut frame, &mut [0; 512], &KCK, &KEK, OWN, AP) {
            Message3Step::ResendMessage2(_) => {
                let completion = Some(Err(TxError::AckTimeout));
                if let Err(error) = eapol_send_result(completion) {
                    break Err(error);
                }
            }
            Message3Step::Accepted(gtk) => break Ok(gtk),
            Message3Step::Ignored => {}
        }
    };
    assert!(matches!(result, Err(StaError::AckTimeout)));
    assert_eq!(frames.len(), 1);
}

#[test]
fn authenticated_m3_with_wrong_gtk_length_cannot_panic_or_commit_state() {
    let mut state = pending();
    for length in [0, 1, 15, 17, 32] {
        let mut frame = key_with(99, ANONCE, &vec![0; length], 1, 0x13ca, 0);
        assert!(state.message_3(&mut frame, &mut [0; 512], &KCK, &KEK, OWN, AP).is_none());
        assert_eq!(state.replay_counter, 7);
    }
    assert!(state.message_3(&mut m3(8), &mut [0; 512], &KCK, &KEK, OWN, AP).is_some());
}

#[test]
fn actual_m4_retries_remain_clear_even_with_a_local_ptk_while_group_replies_use_it() {
    let mut station = Station::new();
    let (own, ap) = (OWN, AP);
    let kck = [0; 16];
    let nonce = [0x32; 32];
    let mut m4 = vec![0; 1600];
    let sent = send_message_4(&mut m4, TxPhyRate::Ofdm(6), ap, own, &kck, &nonce, 8);
    let mut g2 = vec![0; 1600];
    let group_sent =
        send_group_message_2(&mut station.sta_tx_rx, &mut g2, ap, own, &kck, 9).unwrap();
    assert_eq!(
        sent.mac_parameters.key_slot_index, None,
        "AP can still lack PTK when M4 was lost"
    );
    assert!(sent.mac_parameters.override_seq_num);
    assert_eq!(m4[1] & 0x40, 0);
    assert_eq!(&m4[37..39], &[3, 0x0a]);
    assert_eq!(group_sent.mac_parameters.key_slot_index, Some(4));
    assert!(group_sent.mac_parameters.override_seq_num);
    assert_ne!(g2[1] & 0x40, 0);
    assert_eq!(
        &g2[24..32],
        &[1, 0, 0, 0x20, 0, 0, 0, 0],
        "M4 must not consume a PTK PN"
    );
    assert_eq!(&g2[45..47], &[3, 2]);
    assert_eq!(&g2[47..49], &[0, 0]);
    assert_eq!(&g2[57..89], &[0; 32]);
    assert_eq!(station.next_packet_number(), 2);
}

#[test]
fn group_reply_without_established_ptk_is_not_submitted_clear() {
    let mut station = Station::new();
    station.sta_tx_rx.crypto_state.take();
    let mut buffer = vec![0; 1600];
    let sta = &mut station.sta_tx_rx;
    assert!(send_group_message_2(sta, &mut buffer, AP, OWN, &[0; 16], 9).is_err());
    assert!(send_group_request(sta, &mut buffer, AP, OWN, &[0; 16], 10).is_err());
    let sent = send_message_4(&mut buffer, TxPhyRate::Ofdm(6), AP, OWN, &[0; 16], &[0; 32], 8);
    assert_eq!(sent.mac_parameters.key_slot_index, None);
}

#[test]
fn actual_eapol_senders_require_a_successful_completion() {
    for kind in 0..3 {
        for completion in [Some(Ok(0)), Some(Err(TxError::AckTimeout)), None] {
            let mut station = Station::new();
            let sta = &mut station.sta_tx_rx;
            let mut frame = vec![0; 1600];
            let sent: Transmission = match kind {
                0 => {
                    send_message_4(&mut frame, TxPhyRate::Ofdm(6), AP, OWN, &[0; 16], &[0; 32], 8)
                }
                1 => send_group_message_2(sta, &mut frame, AP, OWN, &[0; 16], 9).unwrap(),
                2 => send_group_request(sta, &mut frame, AP, OWN, &[0; 16], 10).unwrap(),
                _ => unreachable!(),
            };
            let expected = match completion {
                Some(Ok(_)) => Ok(()),
                Some(Err(_)) => Err(StaError::AckTimeout),
                None => Err(StaError::TxCompletionLost),
            };
            assert_eq!(
                eapol_send_result(completion),
                expected,
                "sender {kind}, completion {completion:?}"
            );
            let slot = sent.mac_parameters.key_slot_index;
            if kind == 0 {
                assert_eq!(slot, None);
                assert_eq!(frame[1] & 0x40, 0);
                assert_eq!(&frame[37..39], &[3, 0x0a]);
            } else {
                assert_eq!(slot, Some(4));
                assert_ne!(frame[1] & 0x40, 0);
                assert_eq!(&frame[24..32], &[1, 0, 0, 0x20, 0, 0, 0, 0]);
                assert_eq!(&frame[45..47], if kind == 1 { &[3, 2] } else { &[0x0b, 2] });
            }
            assert_eq!(
                station.next_packet_number(),
                if kind == 0 { 1 } else { 2 },
                "One protected submission consumes exactly one PN"
            );
        }
    }
}

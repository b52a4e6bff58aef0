//! Tests of the lower MAC: channels, key slots, queues and buffers.
use foa::bg_task::{process_packet, process_packet_shared, RxEndpoint, RxQueue};
use foa::lmac::crypto::{AesCipherParameters, CryptoError, KeyCommand, KeySlot, KeySlotManager, KeyType};
use foa::lmac::{ChannelState, LMacError, LMacInterfaceControl, SharedLMacState};
use foa::mac::{MACAddress, BROADCAST};
use foa::queue::HandleQueue;
use foa::radio::{EdcaAccessCategory, ReceivedFrame, KEY_SLOT_COUNT};
use foa::rx_arc_pool::RxArcPool;
use foa::sta::handshake_probe as probe;
use foa::stack::{init, FoAResources, RX_QUEUE_LEN, TX_BUFFER_COUNT};
use foa::tx_buffer_management::TxBufferManager;

fn frame(interfaces: [bool; 4]) -> ReceivedFrame {
    ReceivedFrame { mpdu: vec![1, 2, 3], rssi: -40, timestamp: 7, interfaces }
}

#[test]
fn channel_is_locked_by_the_first_and_shared_on_the_same_channel() {
    let mut state = SharedLMacState::new(1);
    let first = LMacInterfaceControl { interface: 0 };
    let second = LMacInterfaceControl { interface: 1 };
    assert_eq!(first.lock_channel(&mut state, 6), Ok(()));
    assert_eq!(state.channel_state.channel, 6);
    assert_eq!(second.lock_channel(&mut state, 6), Ok(()));
    assert_eq!(
        second.lock_channel(&mut state, 11),
        Err(LMacError::ChannelLockedByOtherInterface)
    );
    first.unlock_channel(&mut state);
    assert_eq!(second.home_channel(&state), Some(6));
    second.unlock_channel(&mut state);
    assert_eq!(second.home_channel(&state), None);
    // Where the radio refuses the channel, the lock is released again.
    assert_eq!(second.lock_channel(&mut state, 99), Err(LMacError::InvalidChannel));
    assert!(!second.holds_channel(&state));
    assert_eq!(second.home_channel(&state), None);
    assert_eq!(first.lock_channel(&mut state, 11), Ok(()));
    assert_eq!(
        second.begin_interface_bringup_operation(&mut state, 99).unwrap_err(),
        LMacError::ChannelLockedByOtherInterface
    );
    assert!(first.begin_interface_bringup_operation(&mut state, 0).is_err());
    assert_eq!(first.home_channel(&state), None);
    assert_eq!(state.channel_state.channel, 11);
}

#[test]
fn locking_tells_whether_the_channel_changed() {
    let mut state = SharedLMacState::new(1).channel_state;
    assert_eq!(state.lock_channel(0, 6), Ok(true));
    // The only holder asks for the channel that it holds.
    let locks = state.locks;
    assert_eq!(state.lock_channel(0, 6), Ok(false));
    assert_eq!((state.locks, state.channel), (locks, 6));
    assert_eq!(state.lock_channel(0, 11), Ok(true));
    assert_eq!((state.locks, state.channel), (Some(([true, false, false, false], 11)), 11));
    assert_eq!(state.lock_channel(1, 11), Ok(false));
    assert_eq!(state.lock_channel(1, 6), Err(LMacError::ChannelLockedByOtherInterface));
    // The lock is kept where the radio refuses the channel, and the radio refuses it again.
    state.unlock_channel(1);
    assert_eq!(state.lock_channel(0, 99), Err(LMacError::InvalidChannel));
    assert_eq!(state.lock_channel(0, 99), Err(LMacError::InvalidChannel));
    assert_eq!(state.channel, 11);
}

#[test]
fn bringup_unlocks_only_if_it_is_given_up() {
    let mut state = SharedLMacState::new(1);
    let control = LMacInterfaceControl { interface: 3 };
    let operation = control.begin_interface_bringup_operation(&mut state, 6).unwrap();
    operation.abort(&mut state);
    assert_eq!(control.home_channel(&state), None);
    let operation = control.begin_interface_bringup_operation(&mut state, 6).unwrap();
    operation.complete(&mut state);
    assert_eq!(control.home_channel(&state), Some(6));
    assert_eq!(control.off_channel_operation_interface(&state), None);
}

#[test]
fn channels_out_of_range_are_rejected() {
    let mut state = ChannelState::new(1);
    for channel in [0, 15, 255] {
        assert_eq!(state.set_channel(channel), Err(LMacError::InvalidChannel));
    }
    assert_eq!(state.channel, 1);
    assert_eq!(state.set_channel(13), Ok(()));
    assert_eq!(state.channel, 13);
}

#[test]
fn factory_addresses_differ_by_interface() {
    let base = [2, 0, 0, 0, 0, 0x10];
    for interface in 0..4 {
        let control = LMacInterfaceControl { interface };
        let mut expected = base;
        expected[5] += interface as u8;
        assert_eq!(control.get_factory_mac_for_interface(base), expected);
    }
}

#[test]
fn key_slots_are_given_out_once() {
    let mut manager = KeySlotManager::new();
    for slot in 0..KEY_SLOT_COUNT {
        assert_eq!(manager.acquire_key_slot(), Some(slot));
    }
    assert_eq!(manager.acquire_key_slot(), None);
    manager.release_key_slot(7);
    assert_eq!(manager.acquire_key_slot(), Some(7));
}

#[test]
fn keys_are_installed_by_commands() {
    let mut manager = KeySlotManager::new();
    let mut slot = KeySlot { key_slot: manager.acquire_key_slot().unwrap() as u8, interface: 1 };
    let parameters = AesCipherParameters {
        key: [9; 16],
        key_type: KeyType::Pairwise,
        mfp_enabled: false,
        spp_enabled: false,
    };
    assert_eq!(slot.set_key(&mut manager, 0, [2; 6], parameters), Ok(()));
    assert_eq!(slot.set_key(&mut manager, 4, [2; 6], parameters), Err(CryptoError::OutOfBounds));
    assert_eq!(
        slot.set_key(&mut manager, 0, [3; 6], parameters),
        Err(CryptoError::MulticastBitSet)
    );
    let commands = manager.take_commands();
    assert_eq!(commands.len(), 1);
    assert!(matches!(
        commands[0],
        KeyCommand::Install { key_slot: 0, interface: 1, key_id: 0, .. }
    ));
    assert!(manager.take_commands().is_empty());
    assert_eq!(slot.key_slot(), 0);
}

#[test]
fn queues_keep_order_and_capacity() {
    let mut queue = HandleQueue::new(2);
    assert!(queue.try_send(5) && queue.try_send(6));
    assert!(!queue.try_send(7));
    assert_eq!(queue.len(), 2);
    assert_eq!(queue.try_receive(), Some(5));
    assert_eq!(queue.try_receive(), Some(6));
    assert_eq!(queue.try_receive(), None);
    assert!(queue.try_send(8) && queue.try_send(9));
    assert_eq!(queue.clear(), [8, 9]);
    assert_eq!(queue.try_receive(), None);
}

#[test]
fn buffers_come_back_in_turn_and_cleared() {
    let mut pool = TxBufferManager::<2, 8>::new();
    let mut first = pool.try_alloc().unwrap();
    let second = pool.try_alloc().unwrap();
    assert!(pool.try_alloc().is_none());
    first.bytes.fill(0xff);
    pool.release(second);
    pool.release(first);
    assert_eq!(pool.try_alloc().unwrap().index, 1);
    let again = pool.try_alloc().unwrap();
    assert_eq!((again.index, again.bytes), (0, vec![0; 8]));
}

#[test]
fn frames_for_one_interface_go_to_its_queue() {
    let mut queues = [RxQueue::new(2), RxQueue::new(2), RxQueue::new(2), RxQueue::new(2)];
    let one = [false, true, false, false];
    assert!(!process_packet(&mut queues, one, 3), "queue is not active");
    let mut endpoint = RxEndpoint::new(&mut queues, 1);
    assert!(process_packet(&mut queues, one, 3));
    assert!(process_packet(&mut queues, one, 4));
    assert!(!process_packet(&mut queues, one, 5), "queue is full");
    assert!(!process_packet(&mut queues, [true, true, false, false], 6));
    assert!(!process_packet(&mut queues, [false; 4], 6));
    assert_eq!(endpoint.receive(&mut queues), Some(3));
    assert_eq!(endpoint.receive(&mut queues), Some(4));
    assert_eq!(endpoint.receive(&mut queues), None);
    endpoint.close(&mut queues);
    assert!(!process_packet(&mut queues, one, 7));
}

#[test]
fn shared_frames_are_freed_with_their_last_handle() {
    let mut queues = [RxQueue::new(2), RxQueue::new(2), RxQueue::new(2), RxQueue::new(2)];
    let mut pool = RxArcPool::<2>::new();
    assert!(!process_packet_shared(&mut queues, &mut pool, frame([true; 4])), "nobody listens");
    let mut first = RxEndpoint::new(&mut queues, 0);
    let mut second = RxEndpoint::new(&mut queues, 2);
    assert!(process_packet_shared(&mut queues, &mut pool, frame([true; 4])));
    let handle = first.receive(&mut queues).unwrap();
    assert_eq!(second.receive(&mut queues), Some(handle));
    // Two handles, that is one besides the first.
    assert_eq!(pool.state[handle].as_ref().unwrap().refs, 1);
}

#[test]
fn arc_pool_counts_handles() {
    let mut pool = RxArcPool::<1>::new();
    let buffer = pool.try_alloc(frame([true; 4])).unwrap();
    assert!(pool.try_alloc(frame([true; 4])).is_none());
    assert_eq!(pool.get(&buffer).mpdu, [1, 2, 3]);
    let copy = pool.clone_buffer(&buffer);
    assert!(pool.release(buffer).is_none());
    let freed = pool.release(copy).unwrap();
    assert_eq!((freed.rssi, freed.timestamp), (-40, 7));
    assert!(pool.try_alloc(frame([true; 4])).is_some());
}

#[test]
fn stack_starts_fresh_and_interfaces_reset() {
    let mut resources = FoAResources::new(1);
    let (mut interfaces, runner) = init(&mut resources, 11);
    assert_eq!(resources.shared_lmac_state.channel_state.channel, 11);
    assert_eq!(runner.edca_tx_runners.len(), 4);
    let interface = &mut interfaces[1];
    let endpoint = interface.split(&mut resources);
    assert_eq!(endpoint.interface, 1);
    let one = [false, true, false, false];
    for handle in 0..RX_QUEUE_LEN {
        assert!(process_packet(&mut resources.rx_queues, one, handle));
    }
    assert!(!process_packet(&mut resources.rx_queues, one, 9));
    interface.interface_control.lock_channel(&mut resources.shared_lmac_state, 6).unwrap();
    assert_eq!(interface.reset(&mut resources), (0..RX_QUEUE_LEN).collect::<Vec<_>>());
    assert_eq!(resources.rx_queues[1].queue.len(), 0);
    assert_eq!(interface.interface_control.home_channel(&resources.shared_lmac_state), None);
    for _ in 0..TX_BUFFER_COUNT {
        assert!(resources.tx_buffer_manager.try_alloc().is_some());
    }
    assert!(resources.tx_buffer_manager.try_alloc().is_none());
}

#[test]
fn access_categories_have_their_slots() {
    assert_eq!(EdcaAccessCategory::Background.hardware_slot(), 1);
    assert_eq!(EdcaAccessCategory::BestEffort.hardware_slot(), 2);
    assert_eq!(EdcaAccessCategory::Video.hardware_slot(), 3);
    assert_eq!(EdcaAccessCategory::Voice.hardware_slot(), 4);
    assert!(MACAddress(BROADCAST).is_multicast());
    assert!(!MACAddress([2, 0, 0, 0, 0, 1]).is_multicast());
}

#[test]
fn clock_readings_are_cut_to_32_bits() {
    assert_eq!(probe::clock_time(5), 5);
    assert_eq!(probe::clock_time(0xffff_ffff), 0xffff_ffff);
    assert_eq!(probe::clock_time(0x3_0000_0007), 7);
}

#[test]
fn handshake_recorder_keeps_the_latest_events() {
    let mut state = probe::State::new();
    probe::event_at(&mut state, 2, 0, 0, 70);
    probe::reset_at(&mut state, 100);
    assert_eq!((state.start, state.snapshot.total_events), (100, 0));
    probe::phase_at(&mut state, 3, 150);
    probe::event_at(&mut state, 8, 1, 2, 170);
    probe::routed_at(&mut state, 1, false, [2, 3], 180);
    let snapshot = probe::snapshot(&state);
    assert_eq!((snapshot.phase, snapshot.phase_us[3], snapshot.total_events), (3, 50, 3));
    assert_eq!(snapshot.events[0], probe::Event { us: 50, phase: 3, kind: 1, a: 3, b: 0 });
    assert_eq!(snapshot.events[1], probe::Event { us: 70, phase: 3, kind: 8, a: 1, b: 2 });
    assert_eq!(
        snapshot.events[2],
        probe::Event { us: 80, phase: 3, kind: 6, a: 0x100, b: 0x2_0003 }
    );
    assert_eq!((snapshot.route_failures, snapshot.eapol_dropped), (1, 1));
    for i in 0..64 {
        probe::event_at(&mut state, 2, i, 0, 200);
    }
    let snapshot = probe::snapshot(&state);
    assert_eq!(snapshot.total_events, 67);
    assert_eq!(snapshot.events[3].a, 0);
    assert_eq!(snapshot.events[2].a, 63);
    probe::reset(&mut state);
    assert_eq!(probe::snapshot(&state).total_events, 0);
    probe::phase(&mut state, 1);
    probe::event(&mut state, 2, 0, 0);
    // Other traffic does not enter the ring.
    probe::routed(&mut state, 0, true, [0, 0]);
    assert_eq!(probe::snapshot(&state).total_events, 2);
}

#[test]
fn queues_of_any_capacity_keep_the_order() {
    for capacity in [0, 1, 63, 64, 65, 200] {
        let mut queue = HandleQueue::new(capacity);
        let (mut sent, mut received) = (0, 0);
        for _ in 0..3 {
            while queue.try_send(sent) {
                sent += 1;
            }
            assert_eq!((queue.len(), sent - received), (capacity, capacity));
            for _ in 0..capacity / 2 {
                assert_eq!(queue.try_receive(), Some(received));
                received += 1;
            }
        }
        assert_eq!(queue.len(), sent - received);
        assert_eq!(queue.clear(), (received..sent).collect::<Vec<_>>());
        assert_eq!((queue.len(), queue.try_receive()), (0, None));
    }
}

//! Tests of the transmit queue, with the radio played by the test.
use foa::radio::{
    EdcaAccessCategory, RetryRates, TxError, TxErrorBehaviour, TxMacParameters, TxPhyRate,
    TxPlcpParameters,
};
use foa::tx_buffer_management::TxBufferManager;
use foa::tx_probe as probe;
use foa::tx_queue::{
    tx_trace_header, Completion, InProgressTransmission, PendingFrame, PendingTransmission,
    PendingTransmissionStatus, RetryBehaviour, TxEndpoint, TxQueue, TxReturnData, TxTraceHeader,
};
use foa::tx_trace::TxTrace;

const TX_BUFFER_COUNT: usize = 8;
const TX_BUFFER_SIZE: usize = 64;
const CATEGORY: EdcaAccessCategory = EdcaAccessCategory::Background;

fn plcp_parameters() -> TxPlcpParameters {
    TxPlcpParameters { rate: TxPhyRate::Ofdm(6) }
}

fn mac_parameters() -> TxMacParameters {
    TxMacParameters { key_slot_index: None, wait_for_ack: true, override_seq_num: false }
}

struct Fixture {
    queues: [TxQueue<TX_BUFFER_COUNT>; 4],
    pool: TxBufferManager<TX_BUFFER_COUNT, TX_BUFFER_SIZE>,
    probe: probe::State,
    endpoint: TxEndpoint,
    frames: Vec<Vec<u8>>,
}

impl Fixture {
    fn new() -> Self {
        Self {
            queues: [TxQueue::new(), TxQueue::new(), TxQueue::new(), TxQueue::new()],
            pool: TxBufferManager::new(),
            probe: probe::State::new(),
            endpoint: TxEndpoint { interface: 0 },
            frames: Vec::new(),
        }
    }

    fn queue(&mut self) -> &mut TxQueue<TX_BUFFER_COUNT> {
        &mut self.queues[CATEGORY.hardware_slot() - 1]
    }

    fn recycle(&mut self, data: Option<TxReturnData>) {
        if let Some(data) = data {
            self.pool.release(data.frame);
        }
    }

    fn submit(&mut self, contents: &[u8], tag: Option<probe::Tag>) -> (PendingTransmission, bool) {
        let mut frame = self.pool.try_alloc().expect("TX pool stalled");
        frame.bytes[..contents.len()].copy_from_slice(contents);
        let enqueued = self.endpoint.transmit_edca_tagged(
            &mut self.queues,
            &mut self.probe,
            CATEGORY,
            frame,
            contents.len(),
            plcp_parameters(),
            mac_parameters(),
            RetryBehaviour::RetryUntil(7),
            tag,
        );
        self.recycle(enqueued.displaced);
        (enqueued.transmission, enqueued.wake_runner)
    }

    fn enqueue(&mut self, marker: u8) -> PendingTransmission {
        self.submit(&[marker, 0x55, 0xaa], None).0
    }

    fn discard(&mut self, handle: PendingTransmission) {
        let discarded = handle.cancel(self.queue());
        self.recycle(discarded);
    }

    fn pick_up(&mut self) -> (InProgressTransmission, PendingFrame) {
        let index = CATEGORY.hardware_slot() - 1;
        self.queues[index].pick_up(&mut self.probe).expect("pending TX")
    }

    fn complete(
        &mut self,
        active: InProgressTransmission,
        pending: PendingFrame,
        result: Result<u8, TxError>,
    ) {
        assert_eq!(pending.retry_behaviour.as_driver_behaviour(), TxErrorBehaviour::RetryUntil(7));
        self.frames.push(pending.frame.bytes[..pending.frame_length].to_vec());
        let index = CATEGORY.hardware_slot() - 1;
        let discarded = self.queues[index].transmitted(&mut self.probe, active, pending, result);
        self.recycle(discarded);
    }

    fn finish_next(&mut self, result: Result<u8, TxError>) {
        let (active, pending) = self.pick_up();
        self.complete(active, pending, result);
    }

    fn abort(&mut self, active: InProgressTransmission, pending: PendingFrame) {
        let discarded = self.queue().finish(active, None);
        assert!(discarded.is_none());
        self.pool.release(pending.frame);
    }

    fn is_pending(&mut self, handle: &PendingTransmission) -> bool {
        matches!(handle.wait_for_completion(self.queue()), Completion::Pending)
    }

    fn wait(&mut self, handle: PendingTransmission) -> Option<TxReturnData> {
        let completion = handle.wait_for_completion(self.queue());
        self.discard(handle);
        match completion {
            Completion::Ready(data) => data,
            Completion::Pending => panic!("queue operation did not complete"),
        }
    }

    fn assert_pool_recovered(&mut self) {
        assert_eq!(self.queue().capacity, TX_BUFFER_COUNT);
        assert!(self.queue().is_empty());
        let buffers: Vec<_> = (0..TX_BUFFER_COUNT)
            .map(|_| self.pool.try_alloc().expect("cancelled/completed frame was not returned"))
            .collect();
        assert!(self.pool.try_alloc().is_none());
        for buffer in buffers {
            assert!(buffer.bytes.iter().all(|byte| *byte == 0));
            self.pool.release(buffer);
        }
        let handle = self.enqueue(0xfe);
        self.finish_next(Ok(2));
        let result = self.wait(handle).expect("new awaited TX lost completion");
        assert_eq!(result.result, Ok(2));
        assert_eq!(&result.frame.bytes[..3], &[0xfe, 0x55, 0xaa]);
        self.recycle(Some(result));
    }
}

#[test]
fn exactly_n_occupied_slots_keep_every_handle_current() {
    let mut f = Fixture::new();
    let handles: Vec<_> = (0..TX_BUFFER_COUNT).map(|i| f.enqueue(i as u8)).collect();
    assert!(f.pool.try_alloc().is_none());
    for handle in &handles {
        assert!(matches!(handle.status(f.queue()), PendingTransmissionStatus::Pending));
    }
    let (active, pending) = f.pick_up();
    assert!(matches!(handles[0].status(f.queue()), PendingTransmissionStatus::InProgress));
    f.complete(active, pending, Ok(0));
    for _ in 1..TX_BUFFER_COUNT {
        f.finish_next(Ok(0));
    }
    for (i, handle) in handles.into_iter().enumerate() {
        let result = f.wait(handle).expect("full queue invalidated live handle");
        assert_eq!(result.frame.bytes[0], i as u8);
        f.recycle(Some(result));
    }
    f.assert_pool_recovered();
}

#[test]
fn tagged_fire_and_forget_retains_results_reuse_and_incomplete_records() {
    let mut f = Fixture::new();
    let mut msdu = vec![0u8; 14 + 20 + 520];
    msdu[12..14].copy_from_slice(&[8, 0]);
    msdu[14] = 0x45;
    msdu[16..18].copy_from_slice(&540u16.to_be_bytes());
    msdu[23] = 1;
    msdu[30..34].copy_from_slice(&[10, 0, 0, 1]);
    msdu[34] = 8;
    msdu[38..42].copy_from_slice(&[0x53, 0x53, 0, 8]);
    msdu[42..].fill(0x5a);
    assert!(probe::accept_msdu(&mut f.probe, &msdu).is_none());
    let start = probe::len(&f.probe);
    let enqueue = |f: &mut Fixture, cycle| {
        assert!(probe::arm(&mut f.probe, cycle, [10, 0, 0, 1]));
        let tag = probe::accept_msdu(&mut f.probe, &msdu).unwrap();
        let (pending, _) = f.submit(&[1, 2, 3], Some(tag));
        assert_eq!(
            probe::entry(&f.probe, (tag.ordinal() - 1) as usize).unwrap().phase,
            probe::Phase::Queued
        );
        f.discard(pending);
        tag
    };
    let first = enqueue(&mut f, 1);
    f.finish_next(Err(TxError::AckTimeout));
    let before = probe::entry(&f.probe, start).unwrap();
    assert_eq!(before.completion, Some(Err(TxError::AckTimeout)));
    assert_eq!(before.phase, probe::Phase::Finished);
    // Recycle the physical queue slot before a second identical ICMP sequence.
    for _ in 0..TX_BUFFER_COUNT {
        let handle = f.enqueue(9);
        f.discard(handle);
        f.finish_next(Ok(0));
    }
    let second = enqueue(&mut f, 2);
    assert_ne!(first, second);
    f.finish_next(Ok(3));
    assert_eq!(probe::entry(&f.probe, start).unwrap(), before);
    assert_eq!(probe::entry(&f.probe, start + 1).unwrap().completion, Some(Ok(3)));
    let third = enqueue(&mut f, 2);
    let (active, pending) = f.pick_up();
    assert_eq!(probe::entry(&f.probe, start + 2).unwrap().phase, probe::Phase::Picked);
    // Dropping a runner is not a successful radio completion.
    f.abort(active, pending);
    let incomplete = probe::entry(&f.probe, start + 2).unwrap();
    assert_eq!(incomplete.tag, third);
    assert!(incomplete.completion.is_none());
    assert!(incomplete.finished_us.is_none());
    probe::disarm(&mut f.probe);
    assert!(probe::accept_msdu(&mut f.probe, &msdu).is_none());
    assert_eq!(probe::len(&f.probe), start + 3);
    assert_eq!(probe::counters(&f.probe), Default::default());
    assert!(!probe::arm(&mut f.probe, 0, [10, 0, 0, 1]));
    assert_eq!(probe::counters(&f.probe).invalid_events, 1);
    f.assert_pool_recovered();
}

#[test]
fn awaited_transmissions_keep_completions_after_multiple_slot_wraps() {
    let mut f = Fixture::new();
    for i in 0..(3 * TX_BUFFER_COUNT + 1) {
        let handle = f.enqueue(i as u8);
        f.finish_next(Ok((i % 7) as u8));
        let returned = f.wait(handle).expect("reused slot forgot its waiter");
        assert_eq!(returned.frame.bytes[0], i as u8);
        assert_eq!(returned.result, Ok((i % 7) as u8));
        f.recycle(Some(returned));
    }
    f.assert_pool_recovered();
}

#[test]
fn stale_handle_drop_cannot_cancel_new_pending_occupant() {
    let mut f = Fixture::new();
    let old = f.enqueue(0);
    f.finish_next(Ok(0));
    for i in 1..TX_BUFFER_COUNT {
        let handle = f.enqueue(i as u8);
        f.discard(handle);
        f.finish_next(Ok(0));
    }
    let current = f.enqueue(99);
    assert!(matches!(old.status(f.queue()), PendingTransmissionStatus::SlotNoLongerValid));
    f.discard(old);
    f.finish_next(Ok(0));
    let result = f.wait(current).expect("old handle cancelled new generation");
    assert_eq!(result.frame.bytes[0], 99);
    f.recycle(Some(result));
    f.assert_pool_recovered();
}

#[test]
fn delayed_completed_future_drop_cannot_cancel_new_occupant() {
    let mut f = Fixture::new();
    let old = f.enqueue(0);
    f.finish_next(Ok(0));
    let Completion::Ready(Some(result)) = old.wait_for_completion(f.queue()) else {
        panic!("completion");
    };
    f.recycle(Some(result));
    for i in 1..TX_BUFFER_COUNT {
        let handle = f.enqueue(i as u8);
        f.finish_next(Ok(0));
        let result = f.wait(handle).unwrap();
        f.recycle(Some(result));
    }
    let current = f.enqueue(99);
    f.discard(old);
    f.finish_next(Ok(0));
    let result = f.wait(current).unwrap();
    assert_eq!(result.frame.bytes[0], 99);
    f.recycle(Some(result));
    f.assert_pool_recovered();
}

#[test]
fn cancelled_before_pickup_still_transmits_and_returns_all_buffers() {
    let mut f = Fixture::new();
    for i in 0..TX_BUFFER_COUNT {
        let handle = f.enqueue(i as u8);
        f.discard(handle);
    }
    assert!(f.pool.try_alloc().is_none(), "fire-and-forget still owns frames until TX");
    for _ in 0..TX_BUFFER_COUNT {
        f.finish_next(Ok(0));
    }
    assert_eq!(f.frames.len(), TX_BUFFER_COUNT);
    f.assert_pool_recovered();
}

#[test]
fn cancellation_during_radio_wait_returns_all_buffers() {
    let mut f = Fixture::new();
    for i in 0..TX_BUFFER_COUNT {
        let handle = f.enqueue(i as u8);
        let (active, pending) = f.pick_up();
        assert!(f.is_pending(&handle));
        f.discard(handle);
        // Cancelling a waiter must not recycle memory still borrowed by
        // the radio/DMA operation. Only the other N-1 buffers are free.
        let spare: Vec<_> = (0..TX_BUFFER_COUNT - 1)
            .map(|_| f.pool.try_alloc().expect("unrelated buffer retained"))
            .collect();
        assert!(f.pool.try_alloc().is_none(), "active radio buffer reclaimed early");
        f.complete(active, pending, Ok(0));
        for buffer in spare {
            f.pool.release(buffer);
        }
    }
    f.assert_pool_recovered();
}

#[test]
fn cancellation_after_finish_releases_unclaimed_completion_buffers() {
    let mut f = Fixture::new();
    for i in 0..TX_BUFFER_COUNT {
        let handle = f.enqueue(i as u8);
        f.finish_next(Ok(0));
        assert!(matches!(
            handle.status(f.queue()),
            PendingTransmissionStatus::ReturnDataAvailable
        ));
        f.discard(handle);
    }
    f.assert_pool_recovered();
}

#[test]
fn mixed_fire_and_forget_and_waiters_preserve_results_and_ownership() {
    let mut f = Fixture::new();
    for round in 0..3 {
        let mut waiters = Vec::new();
        for i in 0..TX_BUFFER_COUNT {
            let handle = f.enqueue((round * TX_BUFFER_COUNT + i) as u8);
            if i % 2 == 0 {
                waiters.push((i, handle));
            } else {
                f.discard(handle);
            }
        }
        for i in 0..TX_BUFFER_COUNT {
            f.finish_next(if i == 2 { Err(TxError::AckTimeout) } else { Ok(0) });
        }
        for (i, handle) in waiters {
            let result = f.wait(handle).expect("waited mixed TX");
            assert_eq!(result.frame.bytes[0], (round * TX_BUFFER_COUNT + i) as u8);
            assert_eq!(result.frame_length, 3);
            assert_eq!(result.result, if i == 2 { Err(TxError::AckTimeout) } else { Ok(0) });
            f.recycle(Some(result));
        }
    }
    f.assert_pool_recovered();
}

#[test]
fn overwritten_completion_returns_none_without_harming_new_generation() {
    let mut f = Fixture::new();
    let old = f.enqueue(0);
    f.finish_next(Ok(0));
    for i in 1..TX_BUFFER_COUNT {
        let handle = f.enqueue(i as u8);
        f.discard(handle);
        f.finish_next(Ok(0));
    }
    let current = f.enqueue(99);
    assert!(f.wait(old).is_none());
    f.finish_next(Ok(0));
    let result = f.wait(current).unwrap();
    assert_eq!(result.frame.bytes[0], 99);
    f.recycle(Some(result));
    f.assert_pool_recovered();
}

#[test]
fn aborting_active_runner_releases_frame_and_resolves_waiter() {
    for poll_first in [false, true] {
        let mut f = Fixture::new();
        let handle = f.enqueue(0);
        let (active, pending) = f.pick_up();
        if poll_first {
            assert!(f.is_pending(&handle));
        }
        f.abort(active, pending);
        assert!(f.wait(handle).is_none());
        f.assert_pool_recovered();
    }
}

#[test]
fn cancelling_wait_future_while_in_progress_releases_pool() {
    let mut f = Fixture::new();
    for i in 0..TX_BUFFER_COUNT {
        let waiter = f.enqueue(i as u8);
        assert!(f.is_pending(&waiter));
        let (active, pending) = f.pick_up();
        f.discard(waiter);
        f.complete(active, pending, Err(TxError::AckTimeout));
    }
    f.assert_pool_recovered();
}

#[test]
fn enqueue_wakes_an_empty_runner() {
    let mut f = Fixture::new();
    assert!(f.queue().is_empty());
    let (handle, woken) = f.submit(&[1, 0x55, 0xaa], None);
    assert!(woken, "enqueue did not wake runner");
    assert!(!f.queue().is_empty());
    // A runner that has work is not woken again.
    let (second, woken) = f.submit(&[2, 0x55, 0xaa], None);
    assert!(!woken);
    for handle in [handle, second] {
        f.finish_next(Ok(0));
        let result = f.wait(handle).unwrap();
        f.recycle(Some(result));
    }
    f.assert_pool_recovered();
}

#[test]
fn completed_transmission_wakes_its_waiter() {
    let mut f = Fixture::new();
    let waiting = f.enqueue(1);
    assert!(f.is_pending(&waiting));
    f.finish_next(Err(TxError::AckTimeout));
    let Some(result) = f.wait(waiting) else {
        panic!("completion");
    };
    assert_eq!(result.result, Err(TxError::AckTimeout));
    f.recycle(Some(result));
    f.assert_pool_recovered();
}

#[test]
fn dropping_unclaimed_completion_wakes_a_blocked_pool_allocator() {
    let mut f = Fixture::new();
    let mut handles: Vec<_> = (0..TX_BUFFER_COUNT).map(|i| f.enqueue(i as u8)).collect();
    for _ in 0..TX_BUFFER_COUNT {
        f.finish_next(Ok(0));
    }
    assert!(f.pool.try_alloc().is_none());
    let discarded = handles.pop().unwrap().cancel(f.queue());
    assert!(discarded.is_some(), "no buffer was released");
    f.recycle(discarded);
    let Some(buffer) = f.pool.try_alloc() else {
        panic!("pool stayed blocked");
    };
    assert!(buffer.bytes.iter().all(|byte| *byte == 0));
    f.pool.release(buffer);
    for handle in handles {
        f.discard(handle);
    }
    f.assert_pool_recovered();
}

#[test]
fn trace_header_ignores_addresses_payload_and_unsupported_layouts() {
    let mut frame = [0xddu8; TX_BUFFER_SIZE];
    frame[..2].copy_from_slice(&[0x88, 0x40]); // Protected QoS data.
    frame[22..24].copy_from_slice(&0xabcdu16.to_le_bytes());
    let expected = TxTraceHeader {
        kind: Some(2),
        subtype: Some(8),
        protected: Some(true),
        sequence: Some(0xabc),
    };
    assert_eq!(tx_trace_header(&frame), expected);
    frame[2..22].fill(0x99);
    frame[24..].fill(0x33);
    assert_eq!(tx_trace_header(&frame), expected);
    for len in 0..24 {
        let header = tx_trace_header(&frame[..len]);
        assert_eq!(header.sequence, None);
        if len < 2 {
            assert_eq!(header, TxTraceHeader::default());
        }
    }
    frame[0] = 0xd4; // ACK control frame has no sequence-control field.
    assert_eq!(tx_trace_header(&frame).sequence, None);
    frame[0] = 0x0c; // Extension frame, do not assume the data layout.
    assert_eq!(tx_trace_header(&frame).sequence, None);
    frame[0] = 0x81; // Unknown protocol version.
    assert_eq!(tx_trace_header(&frame), TxTraceHeader::default());
    frame[0] = 0xb0; // Management authentication keeps the known layout.
    assert_eq!(tx_trace_header(&frame).sequence, Some(0xabc));
}

#[test]
fn trace_pairs_actual_completions_without_frame_contents() {
    let mut f = Fixture::new();
    for (generation, result) in [Ok(3), Err(TxError::AckTimeout)].into_iter().enumerate() {
        let mut frame = [0x91u8; TX_BUFFER_SIZE];
        frame[..2].copy_from_slice(&[0x88, 0x40]);
        frame[22..24].copy_from_slice(&(120u16 << 4).to_le_bytes());
        let private_payload = b"DO_NOT_LOG_THIS_PRIVATE_PAYLOAD";
        frame[24..24 + private_payload.len()].copy_from_slice(private_payload);
        let (handle, _) = f.submit(&frame, None);
        let (active, mut pending) = f.pick_up();
        assert!(f.is_pending(&handle));
        let queue = CATEGORY.hardware_slot();
        let started = TxTrace::of(queue, &active, &pending).start_line();
        // The radio assigns a sequence number.
        pending.frame.bytes[22..24].copy_from_slice(&(999u16 << 4).to_le_bytes());
        let finished = TxTrace::of(queue, &active, &pending).finish_line(result);
        f.complete(active, pending, result);
        let returned = f.wait(handle).unwrap();
        assert_eq!(returned.result, result);
        assert_eq!(&returned.frame.bytes[24..24 + private_payload.len()], private_payload);
        f.recycle(Some(returned));
        assert_eq!(
            vec![started, finished],
            vec![
                format!(
                    "FOA_TX start queue=1 generation={generation} interface=0 len={TX_BUFFER_SIZE} header=TxTraceHeader {{ kind: Some(2), subtype: Some(8), protected: Some(true), sequence: Some(120) }}"
                ),
                format!(
                    "FOA_TX finish queue=1 generation={generation} interface=0 len={TX_BUFFER_SIZE} header=TxTraceHeader {{ kind: Some(2), subtype: Some(8), protected: Some(true), sequence: Some(999) }} result={result:?}"
                ),
            ]
        );
    }
    f.assert_pool_recovered();
}

#[test]
fn trace_lines_tell_unknown_fields_and_every_result() {
    let mut f = Fixture::new();
    for generation in 0..12 {
        let (handle, _) = f.submit(&[0x05], None);
        let (active, pending) = f.pick_up();
        let trace = TxTrace::of(4, &active, &pending);
        let fields = format!(
            "queue=4 generation={generation} interface=0 len=1 header={:?}",
            TxTraceHeader::default()
        );
        assert_eq!(trace.start_line(), format!("FOA_TX start {fields}"));
        for result in [
            Ok(0),
            Ok(255),
            Err(TxError::ChannelAccess),
            Err(TxError::CtsTimeout),
            Err(TxError::AckTimeout),
            Err(TxError::InvalidKeyId),
            Err(TxError::Unknown),
            Err(TxError::BufferTooShort),
            Err(TxError::DisabledKeySlot),
            Err(TxError::OutOfBounds),
            Err(TxError::InvalidEdcaParameters),
        ] {
            let line = format!("FOA_TX finish {fields} result={result:?}");
            assert_eq!(trace.finish_line(result), line);
        }
        f.complete(active, pending, Ok(0));
        let returned = f.wait(handle);
        f.recycle(returned);
    }
    let trace = TxTrace {
        queue: 0,
        generation: u64::MAX,
        interface: 3,
        length: 1600,
        header: tx_trace_header(&[0xd4, 0]),
    };
    assert_eq!(
        trace.start_line(),
        "FOA_TX start queue=0 generation=18446744073709551615 interface=3 len=1600 header=TxTraceHeader { kind: Some(1), subtype: Some(13), protected: Some(false), sequence: None }"
    );
}

#[test]
fn retries_take_up_to_three_rates() {
    let rates = [TxPhyRate::Ofdm(54), TxPhyRate::Ofdm(24), TxPhyRate::Ofdm(6)];
    for count in 0..4 {
        let retry_rates = RetryRates::from_slice(&rates[..count]).unwrap();
        for index in 0..5 {
            assert_eq!(retry_rates.get(index), rates[..count].get(index).copied());
        }
        assert_eq!(
            RetryBehaviour::MultiRateRetry(retry_rates).as_driver_behaviour(),
            TxErrorBehaviour::MultiRateRetry(retry_rates)
        );
    }
    assert!(RetryRates::from_slice(&[TxPhyRate::Ofdm(6); 4]).is_none());
    assert_eq!(RetryBehaviour::default().as_driver_behaviour(), TxErrorBehaviour::Drop);
}

#[test]
fn frames_leave_in_the_order_they_came() {
    let mut f = Fixture::new();
    for i in 0..5 {
        let handle = f.enqueue(i);
        f.discard(handle);
    }
    for _ in 0..5 {
        f.finish_next(Ok(0));
    }
    let order: Vec<u8> = f.frames.iter().map(|frame| frame[0]).collect();
    assert_eq!(order, vec![0, 1, 2, 3, 4]);
}

#[test]
fn completion_is_handed_out_once() {
    let mut f = Fixture::new();
    let handle = f.enqueue(1);
    f.finish_next(Ok(4));
    let Completion::Ready(Some(data)) = handle.wait_for_completion(f.queue()) else {
        panic!("completion");
    };
    assert_eq!(data.result, Ok(4));
    f.recycle(Some(data));
    assert!(matches!(handle.wait_for_completion(f.queue()), Completion::Ready(None)));
    assert!(matches!(handle.status(f.queue()), PendingTransmissionStatus::SlotNoLongerValid));
}

//! The transmit queue.
//!
//! Frames are queued in a ring of as many slots as there are transmit buffers. Every frame that is
//! queued gets a generation, counted up from zero; generation `g` lives in slot `g % N`. The queue
//! remembers the last `N` generations: the frames still to be sent, and before them those whose
//! result may not have been fetched yet.
use vstd::multiset::Multiset;
use vstd::prelude::*;

use crate::bytes::{le_value, read_le16};
use crate::frame::{frame_subtype, frame_type, has_flag, FLAG_PROTECTED};
use crate::radio::{
    EdcaAccessCategory, RetryRates, TxError, TxErrorBehaviour, TxMacParameters, TxPlcpParameters,
    INTERFACE_COUNT,
};
use crate::tx_buffer_management::TxBuffer;
use crate::tx_probe;
use crate::tx_probe::Tag;

verus! {

/// Should the transmission be retried if an error occurs, and if so how.
#[derive(Clone, Copy, Debug, PartialEq, Eq, Structural)]
pub enum RetryBehaviour {
    /// Drop the MPDU.
    Drop,
    /// Retry as many times as specified, with the same rate.
    RetryUntil(u8),
    /// Retry with the specified rates.
    ///
    /// Rate control algorithms like this.
    MultiRateRetry(RetryRates),
}

impl Default for RetryBehaviour {
    fn default() -> (behaviour: Self)
        ensures
            behaviour == RetryBehaviour::Drop,
    {
        RetryBehaviour::Drop
    }
}

impl RetryBehaviour {
    /// Convert this to what the radio is told.
    pub fn as_driver_behaviour(&self) -> (behaviour: TxErrorBehaviour)
        ensures
            behaviour == match *self {
                RetryBehaviour::Drop => TxErrorBehaviour::Drop,
                RetryBehaviour::RetryUntil(retries) => TxErrorBehaviour::RetryUntil(retries),
                RetryBehaviour::MultiRateRetry(rates) => TxErrorBehaviour::MultiRateRetry(rates),
            },
    {
        match self {
            RetryBehaviour::Drop => TxErrorBehaviour::Drop,
            RetryBehaviour::RetryUntil(retries) => TxErrorBehaviour::RetryUntil(*retries),
            RetryBehaviour::MultiRateRetry(rates) => TxErrorBehaviour::MultiRateRetry(*rates),
        }
    }
}

/// A frame pending for transmission.
pub struct PendingFrame {
    /// The buffer that should be transmitted.
    pub frame: TxBuffer,
    /// The length of the frame in the buffer.
    pub frame_length: usize,
    /// Physical layer parameters.
    pub plcp_parameters: TxPlcpParameters,
    /// MAC parameters.
    pub mac_parameters: TxMacParameters,
    /// The interface that transmits.
    pub interface: u8,
    /// What to do if the transmission fails.
    pub retry_behaviour: RetryBehaviour,
    /// Identity of the frame in the diagnostics.
    pub tag: Option<Tag>,
}

/// Data returned by transmitting.
pub struct TxReturnData {
    /// The transmission result.
    pub result: Result<u8, TxError>,
    /// The transmitted frame, in case the same buffer is to be transmitted again.
    pub frame: TxBuffer,
    /// The length of the transmitted frame.
    pub frame_length: usize,
}

/// A slot in the transmit queue.
pub enum TxQueueSlot {
    /// The slot is empty and ready to be used.
    Empty,
    /// The slot contains a frame pending for transmission.
    Pending(PendingFrame),
    /// Transmission of the frame previously in this slot is in progress.
    InProgress,
    /// Return data is available for the transmission of the frame previously in this slot.
    ///
    /// A slot in this state does not count as occupied and can be overwritten at any time, so that
    /// a task that takes too long to retrieve its return data does not block the queue.
    ReturnDataAvailable(TxReturnData),
}

/// A slot, and whether somebody waits for its return data.
pub struct TxQueueItem {
    /// The slot.
    pub slot: TxQueueSlot,
    /// Whether return data is expected.
    pub return_data_expected: bool,
}

/// An asynchronous transmit queue of `N` slots.
pub struct TxQueue<const N: usize> {
    /// The slots.
    pub queue_items: Vec<TxQueueItem>,
    /// Continuously running counter of the queue: the generation of the next frame.
    pub counter: u64,
    /// Capacity left in the queue.
    pub capacity: usize,
}

/// A transmission waiting for completion.
#[derive(Debug)]
pub struct PendingTransmission {
    /// The generation of the frame.
    pub counter: u64,
}

/// A transmission that the runner has taken off the queue.
#[derive(Debug)]
pub struct InProgressTransmission {
    /// The slot to which this transmission corresponds.
    pub index: usize,
    /// The generation of the frame.
    pub generation: u64,
}

impl InProgressTransmission {
    /// Whether this is the transmission of the oldest frame in `queue`.
    pub open spec fn is_of<const N: usize>(&self, queue: TxQueue<N>) -> bool {
        &&& self.generation == queue.front()
        &&& self.index == queue.front() % (N as int)
    }
}

/// Status of a pending transmission.
#[derive(Clone, Copy, Debug, PartialEq, Eq, Structural)]
pub enum PendingTransmissionStatus {
    /// The transmission hasn't started yet.
    Pending,
    /// The background task is currently executing the transmission.
    InProgress,
    /// Return data is available.
    ReturnDataAvailable,
    /// The transmission has already completed and the slot was overwritten.
    SlotNoLongerValid,
}

/// What waiting for a transmission gives.
pub enum Completion {
    /// The transmission is still to be completed.
    Pending,
    /// The return data, unless it was overwritten or the transmission was aborted.
    Ready(Option<TxReturnData>),
}

/// What queueing a frame leads to.
pub struct Enqueued {
    /// Handle of the transmission.
    pub transmission: PendingTransmission,
    /// Whether the runner has to be woken.
    pub wake_runner: bool,
    /// Return data that nobody fetched and that gave way.
    pub displaced: Option<TxReturnData>,
}

/// Two generations that are less than `n` apart live in different slots.
proof fn lemma_distinct_slots(a: int, b: int, n: int)
    requires
        0 <= a < b < a + n,
    ensures
        a % n != b % n,
{
    if a % n == b % n {
        let qa = a / n;
        let qb = b / n;
        assert(a == n * qa + a % n) by (nonlinear_arith)
            requires
                n > 0,
                qa == a / n,
        ;
        assert(b == n * qb + b % n) by (nonlinear_arith)
            requires
                n > 0,
                qb == b / n,
        ;
        assert(b - a == n * (qb - qa)) by (nonlinear_arith)
            requires
                a == n * qa + a % n,
                b == n * qb + b % n,
                a % n == b % n,
        ;
        assert(qb - qa >= 1 ==> n * (qb - qa) >= n) by (nonlinear_arith)
            requires
                n > 0,
        ;
        assert(qb - qa <= 0 ==> n * (qb - qa) <= 0) by (nonlinear_arith)
            requires
                n > 0,
        ;
    }
}

impl<const N: usize> TxQueue<N> {
    /// The number of frames still to be sent.
    pub open spec fn spec_len(&self) -> int {
        N - self.capacity
    }

    /// The generation of the frame that was queued first of those still to be sent.
    pub open spec fn front(&self) -> int {
        self.counter - self.spec_len()
    }

    /// Whether the queue still remembers a generation.
    pub open spec fn remembers(&self, generation: int) -> bool {
        0 <= generation < self.counter && self.counter - generation <= N
    }

    /// The state of a generation that is remembered.
    pub open spec fn item(&self, generation: int) -> TxQueueItem {
        self.queue_items@[generation % (N as int)]
    }

    /// All frames from the front on are pending, but for the one that is being sent; everything
    /// before is done.
    pub open spec fn wf(&self) -> bool {
        &&& 0 < N
        &&& self.queue_items@.len() == N
        &&& self.capacity <= N
        &&& self.spec_len() <= self.counter
        &&& forall|g: int|
            self.front() < g < self.counter ==> (#[trigger] self.item(g)).slot is Pending
        &&& self.spec_len() > 0 ==> (self.item(self.front()).slot is Pending || self.item(
            self.front(),
        ).slot is InProgress)
        &&& forall|g: int|
            self.remembers(g) && g < self.front() ==> {
                ||| (#[trigger] self.item(g)).slot is Empty
                ||| self.item(g).slot is ReturnDataAvailable
            }
        &&& forall|i: int|
            self.counter <= i < N ==> (#[trigger] self.queue_items@[i]).slot is Empty
    }

    /// Whether a frame is being sent.
    pub open spec fn busy(&self) -> bool {
        self.spec_len() > 0 && self.item(self.front()).slot is InProgress
    }

    /// Whether all generations that are remembered, but for `except`, are as in `before`.
    pub open spec fn others_unchanged(&self, before: TxQueue<N>, except: int) -> bool {
        forall|g: int|
            self.remembers(g) && g != except ==> #[trigger] self.item(g) == before.item(g)
    }

    /// Create an empty queue.
    pub fn new() -> (queue: Self)
        requires
            0 < N,
        ensures
            queue.wf(),
            queue.counter == 0,
            queue.capacity == N,
            forall|i: int|
                0 <= i < N ==> #[trigger] queue.queue_items@[i] == (TxQueueItem {
                    slot: TxQueueSlot::Empty,
                    return_data_expected: true,
                }),
    {
        let mut queue_items: Vec<TxQueueItem> = Vec::new();
        let mut i: usize = 0;
        while i < N
            invariant
                i <= N,
                queue_items@.len() == i,
                forall|j: int|
                    0 <= j < i ==> #[trigger] queue_items@[j] == (TxQueueItem {
                        slot: TxQueueSlot::Empty,
                        return_data_expected: true,
                    }),
            decreases N - i,
        {
            queue_items.push(TxQueueItem { slot: TxQueueSlot::Empty, return_data_expected: true });
            i = i + 1;
        }
        Self { queue_items, counter: 0, capacity: N }
    }

    /// Get the index of the slot where the next frame goes.
    pub fn next_slot_index(&self) -> (index: usize)
        requires
            0 < N,
        ensures
            index == self.counter as int % (N as int),
            index < N,
    {
        proof {
            assert(self.counter as int % (N as int) < N) by (nonlinear_arith)
                requires
                    N > 0,
            ;
        }
        (self.counter % (N as u64)) as usize
    }

    /// Get the index of the oldest frame in the queue.
    pub fn front_index(&self) -> (index: usize)
        requires
            0 < N,
            self.capacity <= N,
            self.spec_len() <= self.counter,
            self.spec_len() > 0,
        ensures
            index == self.front() % (N as int),
            index < N,
    {
        let len: usize = self.len();
        let next_slot_index: usize = self.next_slot_index();
        proof {
            let n = N as int;
            let c = self.counter as int;
            let q = c / n;
            assert(c == n * q + c % n && 0 <= c % n < n) by (nonlinear_arith)
                requires
                    n > 0,
                    c >= 0,
                    q == c / n,
            ;
            if next_slot_index >= len {
                vstd::arithmetic::div_mod::lemma_fundamental_div_mod_converse(
                    c - len,
                    n,
                    q,
                    next_slot_index - len,
                );
            } else {
                assert(n * (q - 1) == n * q - n) by (nonlinear_arith);
                vstd::arithmetic::div_mod::lemma_fundamental_div_mod_converse(
                    c - len,
                    n,
                    q - 1,
                    n + next_slot_index - len,
                );
            }
        }
        if next_slot_index >= len {
            next_slot_index - len
        } else {
            let overrun_count: usize = len - next_slot_index;
            N - overrun_count
        }
    }

    /// Check if the queue is empty.
    pub fn is_empty(&self) -> (empty: bool)
        requires
            self.capacity <= N,
        ensures
            empty == (self.spec_len() == 0),
    {
        self.capacity == N
    }

    /// Get the number of frames in the queue.
    pub fn len(&self) -> (len: usize)
        requires
            self.capacity <= N,
        ensures
            len == self.spec_len(),
    {
        N - self.capacity
    }

    /// Check whether the counter has looped over a generation.
    ///
    /// A generation is still current when exactly `N` frames have been queued; frame `N + 1` is the
    /// first one which can overwrite its slot.
    pub fn is_counter_out_of_bounds(&self, counter: u64) -> (out_of_bounds: bool)
        requires
            counter < self.counter,
        ensures
            out_of_bounds == !self.remembers(counter as int),
    {
        self.counter - counter > N as u64
    }

    /// What queueing a frame leads to: the next generation is pending, and somebody may wait for it.
    pub open spec fn is_after_enqueue(
        &self,
        before: TxQueue<N>,
        frame: PendingFrame,
        enqueued: Enqueued,
    ) -> bool {
        &&& self.counter == before.counter + 1
        &&& self.capacity == before.capacity - 1
        &&& self.others_unchanged(before, before.counter as int)
        &&& self.item(before.counter as int) == (TxQueueItem {
            slot: TxQueueSlot::Pending(frame),
            return_data_expected: true,
        })
        &&& enqueued.transmission.counter == before.counter
        &&& enqueued.wake_runner == (before.spec_len() == 0)
        &&& enqueued.displaced == match before.item(before.counter as int).slot {
            TxQueueSlot::ReturnDataAvailable(data) => Some(data),
            _ => None,
        }
    }

    /// What taking the oldest frame off the queue leads to.
    pub open spec fn is_after_receive(
        &self,
        before: TxQueue<N>,
        received: Option<(InProgressTransmission, PendingFrame)>,
    ) -> bool {
        match received {
            Some((transmission, frame)) => {
                &&& before.spec_len() > 0
                &&& self.counter == before.counter
                &&& self.capacity == before.capacity
                &&& transmission.is_of(before)
                &&& before.item(before.front()).slot == TxQueueSlot::Pending(frame)
                &&& self.item(before.front()).slot is InProgress
                &&& self.item(before.front()).return_data_expected == before.item(
                    before.front(),
                ).return_data_expected
                &&& self.others_unchanged(before, before.front())
                &&& self.busy()
            },
            None => before.spec_len() == 0 && *self == before,
        }
    }

    /// What finishing the transmission in progress leads to.
    pub open spec fn is_after_finish(
        &self,
        before: TxQueue<N>,
        outcome: Option<TxReturnData>,
        discarded: Option<TxReturnData>,
    ) -> bool {
        let item = self.item(before.front());
        &&& !self.busy()
        &&& self.counter == before.counter
        &&& self.capacity == before.capacity + 1
        &&& self.others_unchanged(before, before.front())
        &&& item.return_data_expected == before.item(before.front()).return_data_expected
        &&& if item.return_data_expected {
            &&& discarded is None
            &&& item.slot == match outcome {
                Some(data) => TxQueueSlot::ReturnDataAvailable(data),
                None => TxQueueSlot::Empty,
            }
        } else {
            &&& discarded == outcome
            &&& item.slot is Empty
        }
    }

    /// Queue a frame for transmission.
    pub fn enqueue_frame(&mut self, frame: PendingFrame) -> (enqueued: Enqueued)
        requires
            old(self).wf(),
            old(self).capacity > 0,
            old(self).counter < u64::MAX,
        ensures
            final(self).wf(),
            final(self).busy() == old(self).busy(),
            final(self).is_after_enqueue(*old(self), frame, enqueued),
    {
        let wake_runner = self.is_empty();
        let index: usize = self.next_slot_index();
        let counter: u64 = self.counter;
        self.counter = counter + 1;
        self.capacity = self.capacity - 1;
        let mut slot = TxQueueSlot::Pending(frame);
        std::mem::swap(&mut slot, &mut self.queue_items[index].slot);
        self.queue_items[index].return_data_expected = true;
        let displaced = match slot {
            TxQueueSlot::ReturnDataAvailable(data) => Some(data),
            _ => None,
        };
        proof {
            let n = N as int;
            assert forall|g: int| self.remembers(g) && g != counter implies #[trigger] self.item(g)
                == old(self).item(g) by {
                lemma_distinct_slots(g, counter as int, n);
                lemma_slot_in_range(g, n);
            }
            assert forall|g: int| self.front() < g < self.counter implies (
            #[trigger] self.item(g)).slot is Pending by {
                if g != counter {
                    assert(self.remembers(g));
                    assert(old(self).item(g).slot is Pending);
                }
            }
            if old(self).spec_len() > 0 {
                assert(self.remembers(self.front()));
                assert(self.item(self.front()) == old(self).item(self.front()));
            }
            assert forall|g: int| self.remembers(g) && g < self.front() implies {
                ||| (#[trigger] self.item(g)).slot is Empty
                ||| self.item(g).slot is ReturnDataAvailable
            } by {
                assert(old(self).remembers(g));
                assert(self.item(g) == old(self).item(g));
            }
            assert forall|i: int| self.counter <= i < N implies (
            #[trigger] self.queue_items@[i]).slot is Empty by {
                lemma_small_slot(counter as int, n);
                assert(old(self).queue_items@[i].slot is Empty);
            }
        }
        Enqueued { transmission: PendingTransmission { counter }, wake_runner, displaced }
    }

    /// Take the oldest frame off the queue for transmission.
    ///
    /// Only one transmission is in progress at a time.
    pub fn try_receive(&mut self) -> (received: Option<(InProgressTransmission, PendingFrame)>)
        requires
            old(self).wf(),
            !old(self).busy(),
        ensures
            final(self).wf(),
            final(self).is_after_receive(*old(self), received),
    {
        if self.is_empty() {
            return None;
        }
        let index: usize = self.front_index();
        let generation: u64 = self.counter - self.len() as u64;
        let mut slot = TxQueueSlot::InProgress;
        std::mem::swap(&mut slot, &mut self.queue_items[index].slot);
        proof {
            self.lemma_update(*old(self), generation as int);
        }
        match slot {
            TxQueueSlot::Pending(frame) => Some(
                (InProgressTransmission { index, generation }, frame),
            ),
            _ => None,
        }
    }

    /// Changing the slot of one generation leaves all others.
    proof fn lemma_update(self, before: TxQueue<N>, generation: int)
        requires
            0 < N,
            before.queue_items@.len() == N,
            before.remembers(generation),
            self.counter == before.counter,
            self.queue_items@.len() == N,
            forall|i: int|
                0 <= i < N && i != generation % (N as int) ==> self.queue_items@[i]
                    == before.queue_items@[i],
        ensures
            self.others_unchanged(before, generation),
            self.counter < N ==> 0 <= generation % (N as int) < self.counter,
    {
        let n = N as int;
        lemma_slot_in_range(generation, n);
        assert forall|g: int| self.remembers(g) && g != generation implies #[trigger] self.item(g)
            == before.item(g) by {
            lemma_slot_in_range(g, n);
            if g < generation {
                lemma_distinct_slots(g, generation, n);
            } else {
                lemma_distinct_slots(generation, g, n);
            }
        }
        if self.counter < N {
            lemma_small_slot(generation, n);
        }
    }

    /// Finish a transmission: free its place, and keep the return data if somebody waits for it.
    ///
    /// `outcome` is the return data, or nothing where the transmission was aborted. What nobody
    /// waits for is handed back, so that the buffer can be released. Whoever waits for the slot has
    /// to be woken.
    pub fn finish(
        &mut self,
        transmission: InProgressTransmission,
        outcome: Option<TxReturnData>,
    ) -> (discarded: Option<TxReturnData>)
        requires
            old(self).wf(),
            old(self).busy(),
            transmission.is_of(*old(self)),
        ensures
            final(self).wf(),
            final(self).is_after_finish(*old(self), outcome, discarded),
    {
        let index: usize = transmission.index;
        proof {
            lemma_slot_in_range(old(self).front(), N as int);
        }
        self.capacity = self.capacity + 1;
        let expected = self.queue_items[index].return_data_expected;
        let mut discarded = None;
        if expected {
            self.queue_items[index].slot = match outcome {
                Some(data) => TxQueueSlot::ReturnDataAvailable(data),
                None => TxQueueSlot::Empty,
            };
        } else {
            self.queue_items[index].slot = TxQueueSlot::Empty;
            discarded = outcome;
        }
        proof {
            let front = old(self).front();
            self.lemma_update(*old(self), front);
            assert forall|g: int| self.front() < g < self.counter implies (
            #[trigger] self.item(g)).slot is Pending by {
                assert(self.remembers(g));
                assert(old(self).item(g).slot is Pending);
            }
            if self.spec_len() > 0 {
                assert(self.remembers(self.front()));
                assert(old(self).item(self.front()).slot is Pending);
            }
            assert forall|g: int| self.remembers(g) && g < self.front() implies {
                ||| (#[trigger] self.item(g)).slot is Empty
                ||| self.item(g).slot is ReturnDataAvailable
            } by {
                if g != front {
                    assert(old(self).remembers(g));
                    assert(self.item(g) == old(self).item(g));
                }
            }
        }
        discarded
    }
}

impl<const N: usize> TxQueue<N> {
    /// What fetching the completion of a generation leads to.
    pub open spec fn is_after_fetch(
        &self,
        before: TxQueue<N>,
        generation: int,
        completion: Completion,
    ) -> bool {
        if !before.remembers(generation) {
            &&& completion == Completion::Ready(None)
            &&& *self == before
        } else {
            match before.item(generation).slot {
                TxQueueSlot::ReturnDataAvailable(data) => {
                    &&& completion == Completion::Ready(Some(data))
                    &&& self.counter == before.counter
                    &&& self.capacity == before.capacity
                    &&& self.others_unchanged(before, generation)
                    &&& self.item(generation).slot is Empty
                    &&& self.item(generation).return_data_expected == before.item(
                        generation,
                    ).return_data_expected
                },
                TxQueueSlot::Empty => completion == Completion::Ready(None) && *self == before,
                _ => completion is Pending && *self == before,
            }
        }
    }

    /// What giving up a handle leads to.
    pub open spec fn is_after_cancel(
        &self,
        before: TxQueue<N>,
        generation: int,
        discarded: Option<TxReturnData>,
    ) -> bool {
        if !before.remembers(generation) {
            discarded is None && *self == before
        } else {
            &&& self.counter == before.counter
            &&& self.capacity == before.capacity
            &&& self.others_unchanged(before, generation)
            &&& !self.item(generation).return_data_expected
            &&& match before.item(generation).slot {
                TxQueueSlot::ReturnDataAvailable(data) => {
                    &&& discarded == Some(data)
                    &&& self.item(generation).slot is Empty
                },
                slot => discarded is None && self.item(generation).slot == slot,
            }
        }
    }

    /// The invariant outlives a change of one generation that is over.
    proof fn lemma_done_item_replaced(self, before: TxQueue<N>, generation: int)
        requires
            before.wf(),
            before.remembers(generation),
            self.counter == before.counter,
            self.capacity == before.capacity,
            self.queue_items@.len() == N,
            self.others_unchanged(before, generation),
            forall|i: int|
                0 <= i < N && i != generation % (N as int) ==> self.queue_items@[i]
                    == before.queue_items@[i],
            before.item(generation).slot is ReturnDataAvailable ==> self.item(
                generation,
            ).slot is Empty,
            !(before.item(generation).slot is ReturnDataAvailable) ==> self.item(generation).slot
                == before.item(generation).slot,
        ensures
            self.wf(),
            self.busy() == before.busy(),
    {
        self.lemma_update(before, generation);
        assert forall|g: int| self.front() < g < self.counter implies (
        #[trigger] self.item(g)).slot is Pending by {
            assert(self.remembers(g));
            assert(before.item(g).slot is Pending);
        }
        if self.spec_len() > 0 {
            assert(self.remembers(self.front()));
        }
        assert forall|g: int| self.remembers(g) && g < self.front() implies {
            ||| (#[trigger] self.item(g)).slot is Empty
            ||| self.item(g).slot is ReturnDataAvailable
        } by {
            assert(before.remembers(g));
            assert(before.item(g).slot is Empty || before.item(g).slot is ReturnDataAvailable);
        }
    }
}

impl PendingTransmission {
    /// Get the slot index corresponding to this transmission.
    ///
    /// This does not check whether the slot is still valid.
    fn slot_index<const N: usize>(&self) -> (index: usize)
        requires
            0 < N,
        ensures
            index == self.counter as int % (N as int),
            index < N,
    {
        proof {
            lemma_slot_in_range(self.counter as int, N as int);
        }
        (self.counter % (N as u64)) as usize
    }

    /// Get the current status of the transmission.
    pub fn status<const N: usize>(&self, queue: &TxQueue<N>) -> (status:
        PendingTransmissionStatus)
        requires
            queue.wf(),
            self.counter < queue.counter,
        ensures
            status == if !queue.remembers(self.counter as int) {
                PendingTransmissionStatus::SlotNoLongerValid
            } else {
                match queue.item(self.counter as int).slot {
                    TxQueueSlot::InProgress => PendingTransmissionStatus::InProgress,
                    TxQueueSlot::Pending(_) => PendingTransmissionStatus::Pending,
                    TxQueueSlot::ReturnDataAvailable(_) =>
                        PendingTransmissionStatus::ReturnDataAvailable,
                    TxQueueSlot::Empty => PendingTransmissionStatus::SlotNoLongerValid,
                }
            },
    {
        if queue.is_counter_out_of_bounds(self.counter) {
            PendingTransmissionStatus::SlotNoLongerValid
        } else {
            match &queue.queue_items[self.slot_index::<N>()].slot {
                TxQueueSlot::InProgress => PendingTransmissionStatus::InProgress,
                TxQueueSlot::Pending(_) => PendingTransmissionStatus::Pending,
                TxQueueSlot::ReturnDataAvailable(_) =>
                    PendingTransmissionStatus::ReturnDataAvailable,
                TxQueueSlot::Empty => PendingTransmissionStatus::SlotNoLongerValid,
            }
        }
    }

    /// Fetch the return data, once the transmission is complete.
    ///
    /// As long as the transmission is pending, this is to be called again after the next change of
    /// the slot.
    pub fn wait_for_completion<const N: usize>(&self, queue: &mut TxQueue<N>) -> (completion:
        Completion)
        requires
            old(queue).wf(),
            self.counter < old(queue).counter,
        ensures
            final(queue).wf(),
            final(queue).busy() == old(queue).busy(),
            final(queue).is_after_fetch(*old(queue), self.counter as int, completion),
    {
        if queue.is_counter_out_of_bounds(self.counter) {
            return Completion::Ready(None);
        }
        let index: usize = self.slot_index::<N>();
        let available = matches!(
            &queue.queue_items[index].slot,
            TxQueueSlot::ReturnDataAvailable(_)
        );
        if available {
            let mut slot = TxQueueSlot::Empty;
            std::mem::swap(&mut slot, &mut queue.queue_items[index].slot);
            proof {
                queue.lemma_update(*old(queue), self.counter as int);
                queue.lemma_done_item_replaced(*old(queue), self.counter as int);
            }
            return match slot {
                TxQueueSlot::ReturnDataAvailable(data) => Completion::Ready(Some(data)),
                _ => Completion::Ready(None),
            };
        }
        match &queue.queue_items[index].slot {
            // An aborted runner may have released this generation without a completion.
            TxQueueSlot::Empty => Completion::Ready(None),
            _ => Completion::Pending,
        }
    }

    /// Give up the handle: nobody waits for the completion any longer.
    ///
    /// Return data that nobody will fetch is handed back, so that its buffer can be released.
    pub fn cancel<const N: usize>(self, queue: &mut TxQueue<N>) -> (discarded: Option<TxReturnData>)
        requires
            old(queue).wf(),
            self.counter < old(queue).counter,
        ensures
            final(queue).wf(),
            final(queue).busy() == old(queue).busy(),
            final(queue).is_after_cancel(*old(queue), self.counter as int, discarded),
    {
        if queue.is_counter_out_of_bounds(self.counter) {
            // A delayed old handle must not cancel the new occupant.
            return None;
        }
        let index: usize = self.slot_index::<N>();
        queue.queue_items[index].return_data_expected = false;
        let available = matches!(
            &queue.queue_items[index].slot,
            TxQueueSlot::ReturnDataAvailable(_)
        );
        let mut discarded = None;
        if available {
            let mut slot = TxQueueSlot::Empty;
            std::mem::swap(&mut slot, &mut queue.queue_items[index].slot);
            discarded = match slot {
                TxQueueSlot::ReturnDataAvailable(data) => Some(data),
                _ => None,
            };
        }
        proof {
            queue.lemma_update(*old(queue), self.counter as int);
            queue.lemma_done_item_replaced(*old(queue), self.counter as int);
        }
        discarded
    }
}

/// A handle stays current while at most as many frames as there are slots have been queued since
/// its own, itself included, and no longer.
pub proof fn handle_is_current_for_n_frames<const N: usize>(
    queue: TxQueue<N>,
    generation: int,
    queued_since: int,
)
    requires
        queue.wf(),
        0 <= generation,
        1 <= queued_since,
        queue.counter == generation + queued_since,
    ensures
        queue.remembers(generation) == (queued_since <= N),
{
}

/// Every frame that is still to be sent is remembered, so its handle is current.
pub proof fn unsent_frames_are_remembered<const N: usize>(queue: TxQueue<N>, generation: int)
    requires
        queue.wf(),
        queue.front() <= generation < queue.counter,
    ensures
        queue.remembers(generation),
        queue.item(generation).slot is Pending || queue.item(generation).slot is InProgress,
{
}

/// The return data of a transmission is handed out once.
pub proof fn completion_is_fetched_once<const N: usize>(
    before: TxQueue<N>,
    between: TxQueue<N>,
    after: TxQueue<N>,
    generation: int,
    first: Completion,
    second: Completion,
)
    requires
        before.wf(),
        0 <= generation < before.counter,
        between.is_after_fetch(before, generation, first),
        first matches Completion::Ready(Some(_)),
        after.is_after_fetch(between, generation, second),
    ensures
        second == Completion::Ready(None),
        after == between,
{
}

/// Whoever fetches a completion while nobody else touches the queue learns of no change: a
/// transmission that is complete stays so.
pub proof fn completion_is_final<const N: usize>(
    before: TxQueue<N>,
    after: TxQueue<N>,
    generation: int,
    completion: Completion,
)
    requires
        before.wf(),
        before.remembers(generation),
        generation < before.front(),
        after.is_after_fetch(before, generation, completion),
    ensures
        completion is Ready,
{
    assert(before.item(generation).slot is Empty || before.item(
        generation,
    ).slot is ReturnDataAvailable);
}

/// Taking a frame off the queue and aborting its transmission leaves nothing to wait for.
pub proof fn abort_resolves_the_waiter<const N: usize>(
    queue: TxQueue<N>,
    picked: TxQueue<N>,
    aborted: TxQueue<N>,
    received: (InProgressTransmission, PendingFrame),
    discarded: Option<TxReturnData>,
    fetched: TxQueue<N>,
    completion: Completion,
)
    requires
        queue.wf(),
        picked.wf(),
        aborted.wf(),
        picked.is_after_receive(queue, Some(received)),
        aborted.is_after_finish(picked, None, discarded),
        fetched.is_after_fetch(aborted, queue.front(), completion),
    ensures
        completion == Completion::Ready(None),
        discarded is None,
        fetched == aborted,
{
}

/// Frames leave the queue in the order in which they were queued: once one is done, the next is
/// the one queued right behind it.
pub proof fn frames_leave_in_order<const N: usize>(
    queue: TxQueue<N>,
    picked: TxQueue<N>,
    done: TxQueue<N>,
    received: (InProgressTransmission, PendingFrame),
    outcome: Option<TxReturnData>,
    discarded: Option<TxReturnData>,
)
    requires
        queue.wf(),
        picked.wf(),
        done.wf(),
        picked.is_after_receive(queue, Some(received)),
        done.is_after_finish(picked, outcome, discarded),
    ensures
        received.0.generation == queue.front(),
        done.front() == queue.front() + 1,
        done.spec_len() > 0 ==> done.item(done.front()) == queue.item(queue.front() + 1),
{
    if done.spec_len() > 0 {
        assert(done.remembers(done.front()));
        assert(picked.remembers(done.front()));
        assert(done.item(done.front()) == picked.item(done.front()));
        assert(picked.item(done.front()) == queue.item(done.front()));
    }
}

/// The buffer in a slot, if there is one.
pub open spec fn buffer_in(slot: TxQueueSlot) -> Multiset<usize> {
    match slot {
        TxQueueSlot::Pending(frame) => Multiset::singleton(frame.frame.index),
        TxQueueSlot::ReturnDataAvailable(data) => Multiset::singleton(data.frame.index),
        _ => Multiset::empty(),
    }
}

/// The buffer in return data, if there is any.
pub open spec fn buffer_of(data: Option<TxReturnData>) -> Multiset<usize> {
    match data {
        Some(data) => Multiset::singleton(data.frame.index),
        None => Multiset::empty(),
    }
}

/// The buffers in slots.
pub open spec fn buffers_in(items: Seq<TxQueueItem>) -> Multiset<usize>
    decreases items.len(),
{
    if items.len() == 0 {
        Multiset::empty()
    } else {
        buffers_in(items.drop_last()).add(buffer_in(items.last().slot))
    }
}

impl<const N: usize> TxQueue<N> {
    /// The buffers that the queue holds.
    pub open spec fn held(&self) -> Multiset<usize> {
        buffers_in(self.queue_items@)
    }

    /// Where one generation changes, all other slots are as they were.
    proof fn lemma_other_slots(self, before: TxQueue<N>, except: int)
        requires
            self.wf(),
            before.wf(),
            self.counter == before.counter || self.counter == before.counter + 1,
            self.others_unchanged(before, except),
            self.counter != before.counter ==> except == before.counter,
        ensures
            forall|j: int|
                0 <= j < N && j != except % (N as int) ==> (#[trigger] self.queue_items@[j]).slot
                    == before.queue_items@[j].slot,
    {
        assert forall|j: int| 0 <= j < N && j != except % (N as int) implies (
        #[trigger] self.queue_items@[j]).slot == before.queue_items@[j].slot by {
            if j < self.counter {
                let last = self.counter - 1;
                let generation = last - (last - j) % (N as int);
                vstd::arithmetic::div_mod::lemma_fundamental_div_mod(last - j, N as int);
                let rounds = (last - j) / (N as int);
                assert(rounds >= 0) by (nonlinear_arith)
                    requires
                        rounds == (last - j) / (N as int),
                        last - j >= 0,
                        N > 0,
                ;
                assert(N * rounds >= 0) by (nonlinear_arith)
                    requires
                        rounds >= 0,
                        N > 0,
                ;
                assert(generation == j + N * rounds);
                assert(generation % (N as int) == j) by {
                    assert(N * rounds == rounds * N) by (nonlinear_arith);
                    vstd::arithmetic::div_mod::lemma_mod_multiples_vanish(rounds, j, N as int);
                    vstd::arithmetic::div_mod::lemma_small_mod(j as nat, N as nat);
                }
                assert(0 <= (last - j) % (N as int) < N) by (nonlinear_arith)
                    requires
                        N > 0,
                ;
                assert(self.remembers(generation));
                assert(generation != except);
                assert(self.item(generation) == before.item(generation));
            }
        }
    }
}

/// Slots that differ in one place hold the same buffers but for those in that place.
proof fn lemma_buffers_differ(a: Seq<TxQueueItem>, b: Seq<TxQueueItem>, place: int)
    requires
        a.len() == b.len(),
        forall|j: int| 0 <= j < a.len() && j != place ==> (#[trigger] a[j]).slot == b[j].slot,
    ensures
        0 <= place < a.len() ==> buffers_in(a).add(buffer_in(b[place].slot)) == buffers_in(b).add(
            buffer_in(a[place].slot),
        ),
        !(0 <= place < a.len()) ==> buffers_in(a) == buffers_in(b),
    decreases a.len(),
{
    if a.len() > 0 {
        let shorter = a.drop_last();
        let other = b.drop_last();
        assert forall|j: int| 0 <= j < shorter.len() && j != place implies (
        #[trigger] shorter[j]).slot == other[j].slot by {
            assert(a[j].slot == b[j].slot);
        }
        lemma_buffers_differ(shorter, other, place);
        if place != a.len() - 1 {
            assert(a.last().slot == b.last().slot);
        }
        if 0 <= place < a.len() {
            let left = buffers_in(a).add(buffer_in(b[place].slot));
            let right = buffers_in(b).add(buffer_in(a[place].slot));
            assert forall|index: usize| left.count(index) == right.count(index) by {
                if place < shorter.len() {
                    let same = buffers_in(shorter).add(buffer_in(b[place].slot));
                    assert(same == buffers_in(other).add(buffer_in(a[place].slot)));
                    assert(same.count(index) == buffers_in(shorter).count(index) + buffer_in(
                        b[place].slot,
                    ).count(index));
                }
            }
            assert(left =~= right);
        }
    }
}

/// No buffer gets lost, and none is made up, when a frame is queued: what was displaced is handed
/// back.
pub proof fn enqueue_keeps_buffers<const N: usize>(
    before: TxQueue<N>,
    after: TxQueue<N>,
    frame: PendingFrame,
    enqueued: Enqueued,
)
    requires
        before.wf(),
        after.wf(),
        before.capacity > 0,
        after.is_after_enqueue(before, frame, enqueued),
    ensures
        after.held().add(buffer_of(enqueued.displaced)) == before.held().insert(frame.frame.index),
{
    let generation = before.counter as int;
    let place = generation % (N as int);
    lemma_slot_in_range(generation, N as int);
    after.lemma_other_slots(before, generation);
    lemma_buffers_differ(after.queue_items@, before.queue_items@, place);
    if generation < N {
        vstd::arithmetic::div_mod::lemma_small_mod(generation as nat, N as nat);
        assert(before.queue_items@[place].slot is Empty);
    } else {
        vstd::arithmetic::div_mod::lemma_mod_multiples_vanish(-1, generation, N as int);
        assert(N * -1 + generation == generation - N);
        assert(before.remembers(generation - N));
        assert(before.item(generation - N) == before.queue_items@[place]);
    }
    assert(after.held().add(buffer_of(enqueued.displaced)) =~= before.held().insert(
        frame.frame.index,
    ));
}

/// No buffer gets lost, and none is made up, when a frame is taken off the queue.
pub proof fn receive_keeps_buffers<const N: usize>(
    before: TxQueue<N>,
    after: TxQueue<N>,
    received: (InProgressTransmission, PendingFrame),
)
    requires
        before.wf(),
        after.wf(),
        after.is_after_receive(before, Some(received)),
    ensures
        after.held().insert(received.1.frame.index) == before.held(),
{
    let generation = before.front();
    lemma_slot_in_range(generation, N as int);
    after.lemma_other_slots(before, generation);
    lemma_buffers_differ(after.queue_items@, before.queue_items@, generation % (N as int));
    assert(after.held().insert(received.1.frame.index) =~= before.held());
}

/// No buffer gets lost, and none is made up, when a transmission is finished: its buffer is kept
/// for whoever waits, or handed back.
pub proof fn finish_keeps_buffers<const N: usize>(
    before: TxQueue<N>,
    after: TxQueue<N>,
    outcome: Option<TxReturnData>,
    discarded: Option<TxReturnData>,
)
    requires
        before.wf(),
        after.wf(),
        before.busy(),
        after.is_after_finish(before, outcome, discarded),
    ensures
        after.held().add(buffer_of(discarded)) == before.held().add(buffer_of(outcome)),
{
    let generation = before.front();
    lemma_slot_in_range(generation, N as int);
    after.lemma_other_slots(before, generation);
    lemma_buffers_differ(after.queue_items@, before.queue_items@, generation % (N as int));
    let item = after.item(generation);
    let same = after.held().add(buffer_in(before.item(generation).slot));
    assert(same == before.held().add(buffer_in(item.slot)));
    let left = after.held().add(buffer_of(discarded));
    let right = before.held().add(buffer_of(outcome));
    assert forall|index: usize| left.count(index) == right.count(index) by {
        assert(same.count(index) == after.held().count(index));
    }
    assert(left =~= right);
}

/// No buffer gets lost, and none is made up, when a completion is fetched.
pub proof fn fetch_keeps_buffers<const N: usize>(
    before: TxQueue<N>,
    after: TxQueue<N>,
    generation: int,
    completion: Completion,
)
    requires
        before.wf(),
        after.wf(),
        after.is_after_fetch(before, generation, completion),
    ensures
        after.held().add(
            match completion {
                Completion::Ready(data) => buffer_of(data),
                Completion::Pending => Multiset::empty(),
            },
        ) == before.held(),
{
    let fetched = match completion {
        Completion::Ready(data) => buffer_of(data),
        Completion::Pending => Multiset::empty(),
    };
    if before.remembers(generation) && before.item(generation).slot is ReturnDataAvailable {
        lemma_slot_in_range(generation, N as int);
        after.lemma_other_slots(before, generation);
        lemma_buffers_differ(after.queue_items@, before.queue_items@, generation % (N as int));
    }
    assert(after.held().add(fetched) =~= before.held());
}

/// No buffer gets lost, and none is made up, when a handle is given up: return data that nobody
/// will fetch is handed back.
pub proof fn cancel_keeps_buffers<const N: usize>(
    before: TxQueue<N>,
    after: TxQueue<N>,
    generation: int,
    discarded: Option<TxReturnData>,
)
    requires
        before.wf(),
        after.wf(),
        after.is_after_cancel(before, generation, discarded),
    ensures
        after.held().add(buffer_of(discarded)) == before.held(),
{
    if before.remembers(generation) {
        lemma_slot_in_range(generation, N as int);
        after.lemma_other_slots(before, generation);
        lemma_buffers_differ(after.queue_items@, before.queue_items@, generation % (N as int));
        let same = after.held().add(buffer_in(before.item(generation).slot));
        assert(same == before.held().add(buffer_in(after.item(generation).slot)));
        let left = after.held().add(buffer_of(discarded));
        assert forall|index: usize| left.count(index) == before.held().count(index) by {
            assert(same.count(index) == after.held().count(index) + buffer_in(
                before.item(generation).slot,
            ).count(index));
        }
    }
    assert(after.held().add(buffer_of(discarded)) =~= before.held());
}

/// Provides access to the transmit queues for one interface.
///
/// The four EDCA queues are software queues, so transmitting a frame puts it into a queue for the
/// background task to handle.
pub struct TxEndpoint {
    /// The interface that transmits.
    pub interface: usize,
}

impl TxEndpoint {
    /// The interface exists.
    pub open spec fn wf(&self) -> bool {
        self.interface < INTERFACE_COUNT
    }

    /// Transmit using an EDCA queue.
    ///
    /// The transmission will start as soon as the background task picks it up.
    pub fn transmit_edca<const N: usize>(
        &self,
        queues: &mut [TxQueue<N>; 4],
        edca_access_category: EdcaAccessCategory,
        frame: TxBuffer,
        frame_length: usize,
        plcp_parameters: TxPlcpParameters,
        mac_parameters: TxMacParameters,
        retry_behaviour: RetryBehaviour,
        tag: Option<Tag>,
    ) -> (enqueued: Enqueued)
        requires
            self.wf(),
            queue_of(old(queues)@, edca_access_category).wf(),
            queue_of(old(queues)@, edca_access_category).capacity > 0,
            queue_of(old(queues)@, edca_access_category).counter < u64::MAX,
        ensures
            queue_of(final(queues)@, edca_access_category).wf(),
            queue_of(final(queues)@, edca_access_category).busy() == queue_of(
                old(queues)@,
                edca_access_category,
            ).busy(),
            queue_of(final(queues)@, edca_access_category).is_after_enqueue(
                queue_of(old(queues)@, edca_access_category),
                PendingFrame {
                    frame,
                    frame_length,
                    plcp_parameters,
                    mac_parameters,
                    interface: self.interface as u8,
                    retry_behaviour,
                    tag,
                },
                enqueued,
            ),
            forall|i: int|
                0 <= i < 4 && i != edca_access_category.spec_hardware_slot() - 1
                    ==> #[trigger] final(queues)@[i] == old(queues)@[i],
    {
        let slot: usize = edca_access_category.hardware_slot();
        let frame = PendingFrame {
            frame,
            frame_length,
            plcp_parameters,
            mac_parameters,
            interface: self.interface as u8,
            retry_behaviour,
            tag,
        };
        queues[slot - 1].enqueue_frame(frame)
    }

    /// Transmit using an EDCA queue, and record that in the diagnostics.
    pub fn transmit_edca_tagged<const N: usize>(
        &self,
        queues: &mut [TxQueue<N>; 4],
        probe: &mut tx_probe::State,
        edca_access_category: EdcaAccessCategory,
        frame: TxBuffer,
        frame_length: usize,
        plcp_parameters: TxPlcpParameters,
        mac_parameters: TxMacParameters,
        retry_behaviour: RetryBehaviour,
        tag: Option<Tag>,
    ) -> (enqueued: Enqueued)
        requires
            self.wf(),
            old(probe).recorder.wf(),
            queue_of(old(queues)@, edca_access_category).wf(),
            queue_of(old(queues)@, edca_access_category).capacity > 0,
            queue_of(old(queues)@, edca_access_category).counter < u64::MAX,
        ensures
            final(probe).recorder.wf(),
            tag matches Some(tag) ==> exists|at: u64|
                final(probe).recorder.is_after_queued(old(probe).recorder, tag, at),
            tag is None ==> *final(probe) == *old(probe),
            queue_of(final(queues)@, edca_access_category).wf(),
            queue_of(final(queues)@, edca_access_category).busy() == queue_of(
                old(queues)@,
                edca_access_category,
            ).busy(),
            queue_of(final(queues)@, edca_access_category).is_after_enqueue(
                queue_of(old(queues)@, edca_access_category),
                PendingFrame {
                    frame,
                    frame_length,
                    plcp_parameters,
                    mac_parameters,
                    interface: self.interface as u8,
                    retry_behaviour,
                    tag,
                },
                enqueued,
            ),
            forall|i: int|
                0 <= i < 4 && i != edca_access_category.spec_hardware_slot() - 1
                    ==> #[trigger] final(queues)@[i] == old(queues)@[i],
    {
        let enqueued = self.transmit_edca(
            queues,
            edca_access_category,
            frame,
            frame_length,
            plcp_parameters,
            mac_parameters,
            retry_behaviour,
            tag,
        );
        if let Some(tag) = tag {
            tx_probe::queued(probe, tag);
        }
        enqueued
    }
}

/// The queue of an access category.
pub open spec fn queue_of<const N: usize>(
    queues: Seq<TxQueue<N>>,
    category: EdcaAccessCategory,
) -> TxQueue<N> {
    queues[category.spec_hardware_slot() - 1]
}

/// The runner of one queue: it takes frames off the queue one by one, and records what becomes of
/// them.
impl<const N: usize> TxQueue<N> {
    /// Take the oldest frame off the queue for transmission, and record that in the diagnostics.
    pub fn pick_up(&mut self, probe: &mut tx_probe::State) -> (received: Option<
        (InProgressTransmission, PendingFrame),
    >)
        requires
            old(self).wf(),
            !old(self).busy(),
            old(probe).recorder.wf(),
        ensures
            final(self).wf(),
            final(probe).recorder.wf(),
            final(self).is_after_receive(*old(self), received),
            match received {
                Some((_, PendingFrame { tag: Some(tag), .. })) => exists|at: u64|
                    final(probe).recorder.is_after_picked(old(probe).recorder, tag, at),
                _ => *final(probe) == *old(probe),
            },
    {
        let received = self.try_receive();
        if let Some((_, frame)) = &received {
            if let Some(tag) = frame.tag {
                tx_probe::picked(probe, tag);
            }
        }
        received
    }

    /// Take the result of a transmission, and record it in the diagnostics.
    ///
    /// The return data is handed back if nobody waits for it.
    pub fn transmitted(
        &mut self,
        probe: &mut tx_probe::State,
        transmission: InProgressTransmission,
        frame: PendingFrame,
        result: Result<u8, TxError>,
    ) -> (discarded: Option<TxReturnData>)
        requires
            old(self).wf(),
            old(self).busy(),
            transmission.is_of(*old(self)),
            old(probe).recorder.wf(),
        ensures
            final(self).wf(),
            final(probe).recorder.wf(),
            final(self).is_after_finish(
                *old(self),
                Some(
                    TxReturnData { result, frame: frame.frame, frame_length: frame.frame_length },
                ),
                discarded,
            ),
            match frame.tag {
                Some(tag) => exists|at: u64|
                    final(probe).recorder.is_after_finished(old(probe).recorder, tag, at, result),
                None => *final(probe) == *old(probe),
            },
    {
        if let Some(tag) = frame.tag {
            tx_probe::finished(probe, tag, result);
        }
        self.finish(
            transmission,
            Some(TxReturnData { result, frame: frame.frame, frame_length: frame.frame_length }),
        )
    }
}

/// Header fields of a frame that are neither encrypted nor addresses.
#[derive(Clone, Copy, Debug, PartialEq, Eq)]
pub struct TxTraceHeader {
    /// Frame type.
    pub kind: Option<u8>,
    /// Frame subtype.
    pub subtype: Option<u8>,
    /// Whether the contents are encrypted.
    pub protected: Option<bool>,
    /// Sequence number.
    pub sequence: Option<u16>,
}

impl Default for TxTraceHeader {
    fn default() -> (header: Self)
        ensures
            header == (TxTraceHeader { kind: None, subtype: None, protected: None, sequence: None }),
    {
        TxTraceHeader { kind: None, subtype: None, protected: None, sequence: None }
    }
}

/// The header fields of a frame that may be traced.
///
/// Only the known protocol version is interpreted. Control and extension frames do not share the
/// layout of the sequence number.
pub open spec fn trace_header(frame: Seq<u8>) -> TxTraceHeader {
    if frame.len() < 2 || frame[0] & 3 != 0 {
        TxTraceHeader { kind: None, subtype: None, protected: None, sequence: None }
    } else {
        let kind = frame_type(frame);
        TxTraceHeader {
            kind: Some(kind),
            subtype: Some(frame_subtype(frame)),
            protected: Some(has_flag(frame, FLAG_PROTECTED)),
            sequence: if (kind == 0 || kind == 2) && frame.len() >= 24 {
                Some((le_value(frame.subrange(22, 24)) / 16) as u16)
            } else {
                None
            },
        }
    }
}

/// Get the header fields of a frame that may be traced.
pub fn tx_trace_header(frame: &[u8]) -> (header: TxTraceHeader)
    ensures
        header == trace_header(frame@),
{
    if frame.len() < 2 || frame[0] & 3 != 0 {
        return TxTraceHeader::default();
    }
    let kind: u8 = (frame[0] >> 2) & 3;
    let sequence = if (kind == 0 || kind == 2) && frame.len() >= 24 {
        Some(read_le16(frame, 22) / 16)
    } else {
        None
    };
    TxTraceHeader {
        kind: Some(kind),
        subtype: Some(frame[0] >> 4),
        protected: Some(frame[1] & FLAG_PROTECTED != 0),
        sequence,
    }
}

/// A slot index is one.
proof fn lemma_slot_in_range(generation: int, n: int)
    requires
        0 <= generation,
        0 < n,
    ensures
        0 <= generation % n < n,
{
    assert(0 <= generation % n < n) by (nonlinear_arith)
        requires
            0 <= generation,
            0 < n,
    ;
}

/// The first `n` generations live in the slots of the same number.
proof fn lemma_small_slot(generation: int, n: int)
    requires
        0 <= generation,
        0 < n,
    ensures
        generation < n ==> generation % n == generation,
{
    if generation < n {
        vstd::arithmetic::div_mod::lemma_small_mod(generation as nat, n as nat);
    }
}

/// A frame that is queued while no other is to be sent is the next one to be sent, as it was handed
/// over, and the runner is told that there is something to do. Until then its handle has to wait.
pub proof fn queued_frames_are_sent_as_they_are<const N: usize>(
    queue: TxQueue<N>,
    queued: TxQueue<N>,
    picked: TxQueue<N>,
    waited: TxQueue<N>,
    frame: PendingFrame,
    enqueued: Enqueued,
    received: Option<(InProgressTransmission, PendingFrame)>,
    completion: Completion,
)
    requires
        queue.wf(),
        queue.spec_len() == 0,
        queued.wf(),
        queued.is_after_enqueue(queue, frame, enqueued),
        picked.is_after_receive(queued, received),
        waited.is_after_fetch(queued, enqueued.transmission.counter as int, completion),
    ensures
        enqueued.wake_runner,
        received matches Some((transmission, sent)) && sent == frame && transmission.generation
            == enqueued.transmission.counter,
        completion is Pending,
        waited == queued,
{
}

/// A frame that is queued behind others does not change them, and stays as it is until it is its turn.
pub proof fn queued_frames_wait_their_turn<const N: usize>(
    queue: TxQueue<N>,
    queued: TxQueue<N>,
    frame: PendingFrame,
    enqueued: Enqueued,
    generation: int,
)
    requires
        queue.wf(),
        queued.wf(),
        queue.capacity > 0,
        queued.is_after_enqueue(queue, frame, enqueued),
        queue.front() <= generation < queue.counter,
    ensures
        queued.front() == queue.front(),
        queued.item(generation) == queue.item(generation),
        queued.item(queue.counter as int).slot == TxQueueSlot::Pending(frame),
        queued.spec_len() == queue.spec_len() + 1,
        !enqueued.wake_runner,
{
    assert(queued.remembers(generation));
}

/// The result of a transmission reaches whoever waits for it: what the radio reported, with the buffer
/// of the frame.
pub proof fn results_reach_the_waiter<const N: usize>(
    queue: TxQueue<N>,
    queued: TxQueue<N>,
    picked: TxQueue<N>,
    done: TxQueue<N>,
    fetched: TxQueue<N>,
    frame: PendingFrame,
    enqueued: Enqueued,
    received: (InProgressTransmission, PendingFrame),
    data: TxReturnData,
    discarded: Option<TxReturnData>,
    completion: Completion,
)
    requires
        queue.wf(),
        queue.spec_len() == 0,
        queued.wf(),
        picked.wf(),
        done.wf(),
        queued.is_after_enqueue(queue, frame, enqueued),
        picked.is_after_receive(queued, Some(received)),
        done.is_after_finish(picked, Some(data), discarded),
        fetched.is_after_fetch(done, enqueued.transmission.counter as int, completion),
    ensures
        completion == Completion::Ready(Some(data)),
        discarded is None,
{
    assert(done.remembers(enqueued.transmission.counter as int));
}

/// Where nobody waits any longer, the frame is sent all the same, and its result is given back so that
/// the buffer is not lost.
pub proof fn results_that_nobody_waits_for_are_given_back<const N: usize>(
    queue: TxQueue<N>,
    queued: TxQueue<N>,
    cancelled: TxQueue<N>,
    picked: TxQueue<N>,
    done: TxQueue<N>,
    frame: PendingFrame,
    enqueued: Enqueued,
    given_up: Option<TxReturnData>,
    received: Option<(InProgressTransmission, PendingFrame)>,
    data: TxReturnData,
    discarded: Option<TxReturnData>,
)
    requires
        queue.wf(),
        queue.spec_len() == 0,
        queued.wf(),
        cancelled.wf(),
        picked.wf(),
        done.wf(),
        queued.is_after_enqueue(queue, frame, enqueued),
        cancelled.is_after_cancel(queued, enqueued.transmission.counter as int, given_up),
        picked.is_after_receive(cancelled, received),
        done.is_after_finish(picked, Some(data), discarded),
    ensures
        given_up is None,
        received matches Some((_, sent)) && sent == frame,
        discarded == Some(data),
        done.item(queue.counter as int).slot is Empty,
{
    assert(queued.remembers(queue.counter as int));
    assert(cancelled.remembers(queue.counter as int));
    assert(cancelled.front() == queue.counter);
}

/// Every access category has a queue of its own.
pub proof fn categories_have_their_own_queues(a: EdcaAccessCategory, b: EdcaAccessCategory)
    ensures
        1 <= a.spec_hardware_slot() <= 4,
        a.spec_hardware_slot() == b.spec_hardware_slot() <==> a == b,
        EdcaAccessCategory::Background.spec_hardware_slot() == 1,
        EdcaAccessCategory::BestEffort.spec_hardware_slot() == 2,
        EdcaAccessCategory::Video.spec_hardware_slot() == 3,
        EdcaAccessCategory::Voice.spec_hardware_slot() == 4,
{
}

/// What may be traced of a frame is its type, its subtype, its protected flag and, of management and
/// data frames, its sequence number, as they stand in its header.
pub proof fn traced_fields_stand_in_the_header(frame: Seq<u8>)
    ensures
        frame.len() >= 24 && frame[0] & 3 == 0 ==> {
            let header = trace_header(frame);
            &&& header.kind == Some((frame[0] >> 2) & 3)
            &&& header.subtype == Some(frame[0] >> 4)
            &&& header.protected == Some(frame[1] & 0x40 != 0)
            &&& (frame[0] >> 2) & 3 == 0 || (frame[0] >> 2) & 3 == 2 ==> header.sequence == Some(
                ((frame[22] + 256 * frame[23]) / 16) as u16,
            )
            &&& (frame[0] >> 2) & 3 == 1 || (frame[0] >> 2) & 3 == 3 ==> header.sequence is None
        },
        frame.len() < 2 || frame[0] & 3 != 0 ==> {
            let header = trace_header(frame);
            header.kind is None && header.subtype is None && header.protected is None
                && header.sequence is None
        },
{
    if frame.len() >= 24 {
        let bytes = frame.subrange(22, 24);
        reveal_with_fuel(le_value, 3);
        assert(bytes.drop_first().drop_first() =~= Seq::<u8>::empty());
        assert(bytes.drop_first().first() == frame[23]);
        assert(bytes.first() == frame[22]);
        let control = frame[0];
        assert((control >> 2) & 3 < 4) by (bit_vector);
    }
}

/// While a frame is being sent, its handle has to wait, and giving it up does not stop the transmission.
pub proof fn frames_being_sent_are_waited_for<const N: usize>(
    queue: TxQueue<N>,
    fetched: TxQueue<N>,
    cancelled: TxQueue<N>,
    completion: Completion,
    discarded: Option<TxReturnData>,
)
    requires
        queue.wf(),
        queue.busy(),
        cancelled.wf(),
        fetched.is_after_fetch(queue, queue.front(), completion),
        cancelled.is_after_cancel(queue, queue.front(), discarded),
    ensures
        completion is Pending,
        fetched == queue,
        discarded is None,
        cancelled.busy(),
        cancelled.front() == queue.front(),
{
    assert(queue.remembers(queue.front()));
}

/// A handle that is no longer remembered leads to nothing.
pub proof fn forgotten_handles_lead_to_nothing<const N: usize>(
    queue: TxQueue<N>,
    fetched: TxQueue<N>,
    cancelled: TxQueue<N>,
    generation: int,
    completion: Completion,
    discarded: Option<TxReturnData>,
)
    requires
        queue.wf(),
        0 <= generation,
        queue.counter - generation > N,
        fetched.is_after_fetch(queue, generation, completion),
        cancelled.is_after_cancel(queue, generation, discarded),
    ensures
        completion == Completion::Ready(None),
        fetched == queue,
        discarded is None,
        cancelled == queue,
{
}

} // verus!

//! What is known about peers: when they listen where, and whom they follow.
use vstd::prelude::*;

use crate::awdl::action_frame::ActionFrame;
use crate::awdl::tlv::{
    channels, find_channel_sequence, find_election, find_election_v2, find_window_position,
    first_tlv, get_service_records, service_records, ElectionParameters, ElectionParametersV2,
    TLV_CHANNEL_SEQUENCE, TLV_ELECTION, TLV_ELECTION_V2, TLV_SYNCHRONIZATION,
};
use crate::bytes::{bytes_equal, le_value};
use crate::radio::TxPhyRate;
use crate::time::now_micros;

verus! {

/// The amount of availability windows per slot.
pub const AW_PER_SLOT: usize = 4;

/// The amount of time units per availability window.
pub const TU_PER_AW: usize = 16;

/// The amount of slots per channel sequence.
pub const SLOTS_PER_CHANNEL_SEQUENCE: usize = 16;

/// The duration of a time unit in microseconds.
pub const TU_DURATION: u64 = 1024;

/// The duration of an availability window in microseconds.
pub const AW_DURATION: u64 = 16384;

/// The duration of one slot, consisting of one AW and three EAWs, in microseconds.
pub const SLOT_DURATION: u64 = 65536;

/// The duration of an entire channel sequence in microseconds.
pub const CHANNEL_SEQUENCE_DURATION: u64 = 1048576;

/// The state of overlapping slots between us and a peer.
#[derive(Clone, Copy, Debug, PartialEq, Eq, Structural)]
pub enum OverlapSlotState {
    /// No slots overlap.
    NoOverlappingSlots,
    /// The peer isn't in cache.
    PeerNotInCache,
    /// The slots currently overlap.
    CurrentlyOverlapping,
    /// The slots will overlap at the specified time, in microseconds since boot.
    OverlappingAt(u64),
}

/// The fields of the synchronization parameters of a peer that tell its TSF epoch.
#[derive(Clone, Copy, Debug, PartialEq, Eq, Structural)]
pub struct WindowPosition {
    /// Duration of an availability window in TU.
    pub aw_period: u16,
    /// Sequence number of the availability window.
    pub aw_seq_number: u16,
    /// The remaining length of the availability window in TU.
    pub remaining_aw_length: u16,
}

impl WindowPosition {
    /// The time since the TSF epoch, in microseconds: all windows up to the end of the current
    /// one, but for what remains of that.
    pub open spec fn elapsed(&self) -> int {
        1024 * (self.aw_period * self.aw_seq_number + self.aw_period - self.remaining_aw_length)
    }
}

/// The synchronization parameters that are sent to peers.
#[derive(Clone, Copy, Debug)]
pub struct SynchronizationParameters {
    pub next_channel: u8,
    /// The remaining length of the slot in TU.
    pub tx_counter: u16,
    pub master_channel: u8,
    pub guard_time: u8,
    pub aw_period: u16,
    pub af_period: u16,
    pub awdl_flags: u16,
    pub aw_ext_length: u16,
    pub aw_common_length: u16,
    /// The remaining length of the availability window in TU.
    pub remaining_aw_length: u16,
    pub min_ext_count: u8,
    pub max_multicast_ext_count: u8,
    pub max_unicast_ext_count: u8,
    pub max_af_ext_count: u8,
    pub master_address: [u8; 6],
    pub presence_mode: u8,
    pub aw_seq_number: u16,
    pub ap_beacon_alignment_delta: u16,
    /// How many availability windows a step of the channel sequence takes.
    pub step_count: u8,
    /// Flags of each channel in the channel sequence.
    pub channel_flags: u8,
    pub channel_sequence: [u8; 16],
}

/// The value that a 64 bit signed integer takes for `value`.
pub open spec fn wrapped(value: int) -> int {
    let remainder = value % 0x1_0000_0000_0000_0000;
    if remainder < 0x8000_0000_0000_0000 {
        remainder
    } else {
        remainder - 0x1_0000_0000_0000_0000
    }
}

/// The time between an epoch and `now`, as far as 64 bits hold it.
pub open spec fn micros_between(epoch: int, now: int) -> int {
    (now - epoch) % 0x1_0000_0000_0000_0000
}

/// The time between an epoch and `now`.
fn micros_since(epoch: i64, now: u64) -> (elapsed: u64)
    ensures
        elapsed == micros_between(epoch as int, now as int),
{
    if epoch >= 0 {
        now.wrapping_sub(epoch as u64)
    } else {
        now.wrapping_add((-(epoch + 1)) as u64).wrapping_add(1)
    }
}

/// `now` moved back by `elapsed`.
fn moved_back(now: u64, elapsed: i64) -> (epoch: i64)
    requires
        -0x2_0000_0000 <= elapsed <= 0x1000_0000_0000,
    ensures
        epoch == wrapped(now - elapsed),
{
    let moved: u64 = if elapsed >= 0 {
        now.wrapping_sub(elapsed as u64)
    } else {
        now.wrapping_add((-elapsed) as u64)
    };
    if moved < 0x8000_0000_0000_0000 {
        moved as i64
    } else {
        -((u64::MAX - moved) as i64) - 1
    }
}

/// The sequence number of the availability window at a time after the TSF epoch.
pub open spec fn spec_aw_seq_number(duration_since_epoch: int) -> int {
    duration_since_epoch / 16384 % 65536
}

/// The index in the channel sequence of the slot at a time after the TSF epoch.
pub open spec fn slot_at(duration_since_epoch: int) -> int {
    duration_since_epoch / 65536 % 16
}

/// When a slot starts, plus an offset: in the current channel sequence, or in the next if that
/// time has passed.
pub open spec fn slot_start(epoch: int, now: int, slot: int, offset: int) -> int {
    let elapsed = micros_between(epoch, now) % 1048576;
    let position = 65536 * slot + offset;
    now - elapsed + if elapsed > position { position + 1048576 } else { position }
}

/// The time sync state of a peer.
#[derive(Clone, Copy, Debug)]
pub struct SynchronizationState {
    /// The channels that the peer listens on, slot by slot.
    pub channel_sequence: [u8; 16],
    /// The epoch of the TSF of the peer, relative to our system time. Unit: µs since boot.
    pub tsf_epoch_in_us: i64,
}

impl SynchronizationState {
    /// How long ago the TSF epoch was at `now`.
    pub open spec fn elapsed(&self, now: int) -> int {
        micros_between(self.tsf_epoch_in_us as int, now)
    }

    /// The channel at `time`.
    pub open spec fn channel_at(&self, time: int) -> u8 {
        self.channel_sequence@[slot_at(self.elapsed(time))]
    }

    /// Whether a peer is on our channel at `time`.
    pub open spec fn overlaps_at(&self, other: SynchronizationState, time: int) -> bool {
        self.channel_at(time) == other.channel_at(time)
    }

    /// Whether `state` says where the channel sequence of a peer meets ours next: now, at the first
    /// time from now on at which both are on one channel, or never.
    pub open spec fn meets_next(
        &self,
        other: SynchronizationState,
        now: int,
        state: OverlapSlotState,
    ) -> bool {
        match state {
            OverlapSlotState::CurrentlyOverlapping => self.overlaps_at(other, now),
            OverlapSlotState::OverlappingAt(next) => {
                &&& now < next < now + 1048576
                &&& self.overlaps_at(other, next as int)
                &&& forall|time: int|
                    now <= time < next ==> !(#[trigger] self.overlaps_at(other, time))
            },
            OverlapSlotState::NoOverlappingSlots => forall|time: int|
                now <= time ==> !(#[trigger] self.overlaps_at(other, time)),
            OverlapSlotState::PeerNotInCache => false,
        }
    }

    /// When the next MIF is due: one availability window into the current slot or, if less than
    /// 32 TU of that remain, into the next.
    pub open spec fn mif_time(&self, now: int) -> int {
        let elapsed = self.elapsed(now);
        let slot = if 64 - elapsed % 65536 / 1024 < 32 {
            (elapsed / 65536 + 1) % 16
        } else {
            slot_at(elapsed)
        };
        slot_start(self.tsf_epoch_in_us as int, now, slot, 16384)
    }

    /// The synchronization parameters at `now`.
    pub open spec fn parameters(&self, master_address: [u8; 6], now: int) -> SynchronizationParameters {
        let elapsed = self.elapsed(now);
        SynchronizationParameters {
            next_channel: self.channel_sequence@[(elapsed / 65536 + 1) % 16],
            tx_counter: (64 - elapsed % 65536 / 1024) as u16,
            master_channel: 6,
            guard_time: 0,
            aw_period: 16,
            af_period: 110,
            awdl_flags: 0x1800,
            aw_ext_length: 16,
            aw_common_length: 16,
            remaining_aw_length: (16 - elapsed % 16384 / 1024) as u16,
            min_ext_count: 3,
            max_multicast_ext_count: 3,
            max_unicast_ext_count: 3,
            max_af_ext_count: 3,
            master_address,
            presence_mode: 4,
            aw_seq_number: spec_aw_seq_number(elapsed) as u16,
            ap_beacon_alignment_delta: 0,
            step_count: 4,
            channel_flags: 0x2b,
            channel_sequence: self.channel_sequence,
        }
    }

    /// A sync state with specified channel, whose TSF epoch is `now`.
    pub fn new_at(channel: u8, now: u64) -> (state: Self)
        ensures
            state.channel_sequence@ == Seq::new(16, |i: int| channel),
            state.tsf_epoch_in_us == wrapped(now as int),
    {
        let channel_sequence = [channel; 16];
        assert(channel_sequence@ =~= Seq::new(16, |i: int| channel));
        Self { channel_sequence, tsf_epoch_in_us: moved_back(now, 0) }
    }

    /// Create a new sync state with specified channel.
    pub fn new(channel: u8) -> (state: Self)
        ensures
            state.channel_sequence@ == Seq::new(16, |i: int| channel),
    {
        Self::new_at(channel, now_micros())
    }

    /// Adopts the other synchronization state as the master state.
    pub fn adopt_master(&mut self, master_sync_state: &Self)
        ensures
            *final(self) == (SynchronizationState {
                tsf_epoch_in_us: master_sync_state.tsf_epoch_in_us,
                ..*old(self)
            }),
    {
        self.tsf_epoch_in_us = master_sync_state.tsf_epoch_in_us;
    }

    /// Recover the TSF epoch from the synchronization parameters.
    pub fn recover_tsf_epoch(position: &WindowPosition, tx_delta: u32, rx_timestamp: u64) -> (epoch:
        i64)
        ensures
            epoch == wrapped(rx_timestamp - (position.elapsed() - tx_delta)),
    {
        assert(position.aw_period * position.aw_seq_number <= 65535 * 65535) by (nonlinear_arith)
            requires
                position.aw_period <= 65535,
                position.aw_seq_number <= 65535,
        ;
        // The time since the first AW (so TSF epoch) is the AW duration times the AW sequence
        // number plus what has passed of the current AW.
        let tu_since_first_aw: i64 = position.aw_period as i64 * position.aw_seq_number as i64
            + position.aw_period as i64 - position.remaining_aw_length as i64;
        let elapsed_since_tsf_epoch: i64 = 1024 * tu_since_first_aw - tx_delta as i64;
        // By subtracting the time that has elapsed since the peers TSF epoch from the RX
        // timestamp, we get the timestamp of the TSF epoch.
        moved_back(rx_timestamp, elapsed_since_tsf_epoch)
    }

    /// Whether an action frame that was received at `rx_timestamp` tells this synchronization state.
    pub open spec fn is_told_by(&self, action_frame: ActionFrame, rx_timestamp: u64) -> bool {
        let value = first_tlv(action_frame.tlvs@, TLV_SYNCHRONIZATION)->Some_0;
        let position = WindowPosition {
            aw_period: le_value(value.subrange(5, 7)) as u16,
            aw_seq_number: le_value(value.subrange(29, 31)) as u16,
            remaining_aw_length: le_value(value.subrange(15, 17)) as u16,
        };
        let tx_delta = action_frame.phy_tx_time - action_frame.target_tx_time;
        &&& self.channel_sequence@ == channels(
            first_tlv(action_frame.tlvs@, TLV_CHANNEL_SEQUENCE)->Some_0,
        )
        &&& self.tsf_epoch_in_us == wrapped(rx_timestamp - (position.elapsed() - tx_delta))
    }

    /// Derive the synchronization state of the peer, from an action frame.
    pub fn from_af(action_frame: &ActionFrame, rx_timestamp: u64) -> (state: Option<Self>)
        requires
            action_frame.is_readable(),
        ensures
            state is Some == action_frame.tells_synchronization(),
            state matches Some(state) ==> state.is_told_by(*action_frame, rx_timestamp),
    {
        let channel_sequence = match find_channel_sequence(&action_frame.tlvs) {
            Some(channel_sequence) => channel_sequence,
            None => return None,
        };
        let position = match find_window_position(&action_frame.tlvs) {
            Some(position) => position,
            None => return None,
        };
        let tx_delta: u32 = action_frame.phy_tx_time - action_frame.target_tx_time;
        let tsf_epoch_in_us: i64 = Self::recover_tsf_epoch(&position, tx_delta, rx_timestamp);
        Some(Self { channel_sequence, tsf_epoch_in_us })
    }

    /// The time that has elapsed, since the TSF epoch of the peer, at `now`.
    pub fn elapsed_since_tsf_epoch_at(&self, now: u64) -> (elapsed: u64)
        ensures
            elapsed == self.elapsed(now as int),
    {
        micros_since(self.tsf_epoch_in_us, now)
    }

    /// The time that has elapsed, since the TSF epoch of the peer.
    pub fn elapsed_since_tsf_epoch(&self) -> (elapsed: u64)
        ensures
            exists|now: u64| elapsed == #[trigger] self.elapsed(now as int),
    {
        self.elapsed_since_tsf_epoch_at(now_micros())
    }

    /// The sequence number of the current AW.
    pub fn aw_seq_number(duration_since_epoch: u64) -> (number: u16)
        ensures
            number == spec_aw_seq_number(duration_since_epoch as int),
    {
        // We get the sequence number by dividing the time that has passed since the TSF epoch, by
        // the duration of an AW.
        (duration_since_epoch / AW_DURATION % 65536) as u16
    }

    /// The remaining length of the current AW in TU.
    pub fn remaining_aw_length(duration_since_epoch: u64) -> (length: u16)
        ensures
            length == 16 - duration_since_epoch as int % 16384 / 1024,
    {
        16 - (duration_since_epoch % AW_DURATION / TU_DURATION) as u16
    }

    /// The remaining slot length in TU.
    pub fn remaining_slot_length(duration_since_epoch: u64) -> (length: u16)
        ensures
            length == 64 - duration_since_epoch as int % 65536 / 1024,
    {
        64 - (duration_since_epoch % SLOT_DURATION / TU_DURATION) as u16
    }

    /// The index of the current slot.
    pub fn current_slot_index(duration_since_epoch: u64) -> (slot: usize)
        ensures
            slot == slot_at(duration_since_epoch as int),
            slot < 16,
    {
        // Dividing the AW sequence number by the amount of AW per slot yields the amount of slots,
        // that have passed since the TSF epoch.
        proof {
            lemma_slot_of_window(duration_since_epoch as int);
        }
        Self::aw_seq_number(duration_since_epoch) as usize / AW_PER_SLOT
            % SLOTS_PER_CHANNEL_SEQUENCE
    }

    /// The index of the next slot.
    pub fn next_slot_index(duration_since_epoch: u64) -> (slot: usize)
        ensures
            slot == (duration_since_epoch as int / 65536 + 1) % 16,
            slot < 16,
    {
        proof {
            lemma_slot_of_window(duration_since_epoch as int);
        }
        (Self::aw_seq_number(duration_since_epoch) as usize / AW_PER_SLOT + 1)
            % SLOTS_PER_CHANNEL_SEQUENCE
    }

    /// The next channel.
    pub fn next_channel(&self, duration_since_epoch: u64) -> (channel: u8)
        ensures
            channel == self.channel_sequence@[(duration_since_epoch as int / 65536 + 1) % 16],
    {
        self.channel_sequence[Self::next_slot_index(duration_since_epoch)]
    }

    /// Calculate the timestamp at which the specified slot starts, plus the specified offset.
    pub fn slot_start_timestamp_at(&self, slot: usize, offset: u64, now: u64) -> (timestamp: u64)
        requires
            slot <= u32::MAX,
            slot_start(self.tsf_epoch_in_us as int, now as int, slot as int, offset as int)
                <= u64::MAX,
        ensures
            timestamp == slot_start(
                self.tsf_epoch_in_us as int,
                now as int,
                slot as int,
                offset as int,
            ),
    {
        (now as u128 + self.time_to_slot(slot, offset, now)) as u64
    }

    /// The time from `now` to the start of the specified slot, plus the specified offset.
    fn time_to_slot(&self, slot: usize, offset: u64, now: u64) -> (wait: u128)
        requires
            slot <= u32::MAX,
        ensures
            now + wait == slot_start(
                self.tsf_epoch_in_us as int,
                now as int,
                slot as int,
                offset as int,
            ),
            wait < 0x1_0000_0000_0000_0000_0000,
    {
        let elapsed_since_chan_seq_start: u128 = (self.elapsed_since_tsf_epoch_at(now)
            % CHANNEL_SEQUENCE_DURATION) as u128;
        let time_to_slot_from_zero: u128 = (SLOT_DURATION * slot as u64) as u128 + offset as u128;
        if elapsed_since_chan_seq_start > time_to_slot_from_zero {
            time_to_slot_from_zero + CHANNEL_SEQUENCE_DURATION as u128
                - elapsed_since_chan_seq_start
        } else {
            time_to_slot_from_zero - elapsed_since_chan_seq_start
        }
    }

    /// Calculate the timestamp at which the specified slot starts, plus the specified offset.
    /// There is none if it is too far in the future for the clock.
    pub fn slot_start_timestamp(&self, slot: usize, offset: u64) -> (timestamp: Option<u64>)
        requires
            slot <= u32::MAX,
        ensures
            exists|now: u64|
                {
                    let start = #[trigger] slot_start(
                        self.tsf_epoch_in_us as int,
                        now as int,
                        slot as int,
                        offset as int,
                    );
                    if start <= u64::MAX {
                        timestamp == Some(start as u64)
                    } else {
                        timestamp is None
                    }
                },
    {
        let now: u64 = now_micros();
        if now as u128 + self.time_to_slot(slot, offset, now) <= u64::MAX as u128 {
            Some(self.slot_start_timestamp_at(slot, offset, now))
        } else {
            None
        }
    }

    /// Calculate the timestamp, at which the next multicast slot starts.
    pub fn multicast_slot_start_timestamp(&self) -> (timestamp: Option<u64>)
        ensures
            exists|now: u64|
                {
                    let start = #[trigger] slot_start(
                        self.tsf_epoch_in_us as int,
                        now as int,
                        9,
                        0,
                    );
                    if start <= u64::MAX {
                        timestamp == Some(start as u64)
                    } else {
                        timestamp is None
                    }
                },
    {
        self.slot_start_timestamp(9, 0)
    }

    /// The time from `now` to the end of the slot.
    fn time_to_next_slot(&self, now: u64) -> (wait: u64)
        ensures
            wait == 65536 - self.elapsed(now as int) % 65536,
            1 <= wait <= 65536,
    {
        SLOT_DURATION - self.elapsed_since_tsf_epoch_at(now) % SLOT_DURATION
    }

    /// The current channel.
    fn channel(&self, now: u64) -> (channel: u8)
        ensures
            channel == self.channel_at(now as int),
    {
        self.channel_sequence[Self::current_slot_index(self.elapsed_since_tsf_epoch_at(now))]
    }

    /// Get the timestamp, at which the channel sequences will overlap next.
    pub fn next_overlap_timestamp_at(&self, sync_state: &Self, now: u64) -> (state: OverlapSlotState)
        requires
            now <= u64::MAX - 2 * CHANNEL_SEQUENCE_DURATION,
        ensures
            self.meets_next(*sync_state, now as int, state),
    {
        if self.channel(now) == sync_state.channel(now) {
            return OverlapSlotState::CurrentlyOverlapping;
        }
        // This visits the slots of both in ascending order of distance. The pattern repeats after
        // one channel sequence.
        let mut time: u64 = now;
        loop
            invariant
                now <= time < now + 1048576,
                now <= u64::MAX - 2 * CHANNEL_SEQUENCE_DURATION,
                forall|t: int| now <= t <= time ==> !(#[trigger] self.overlaps_at(*sync_state, t)),
            decreases now + 1048576 - time,
        {
            let own: u64 = self.time_to_next_slot(time);
            let peers: u64 = sync_state.time_to_next_slot(time);
            let next: u64 = time + if own <= peers {
                own
            } else {
                peers
            };
            proof {
                assert(!self.overlaps_at(*sync_state, time as int));
                assert forall|t: int| now <= t < next implies !(#[trigger] self.overlaps_at(
                    *sync_state,
                    t,
                )) by {
                    if t > time {
                        lemma_slot_lasts(*self, time as int, t);
                        lemma_slot_lasts(*sync_state, time as int, t);
                    }
                }
            }
            if next - now >= CHANNEL_SEQUENCE_DURATION {
                proof {
                    assert forall|t: int| now <= t implies !(#[trigger] self.overlaps_at(
                        *sync_state,
                        t,
                    )) by {
                        let earlier = now + (t - now) % 1048576;
                        lemma_channels_repeat(*self, earlier, t);
                        lemma_channels_repeat(*sync_state, earlier, t);
                        assert(!self.overlaps_at(*sync_state, earlier));
                    }
                }
                return OverlapSlotState::NoOverlappingSlots;
            }
            if self.channel(next) == sync_state.channel(next) {
                return OverlapSlotState::OverlappingAt(next);
            }
            time = next;
        }
    }

    /// Get the timestamp, at which the channel sequences will overlap next. Nothing is known if the
    /// clock is about to run out.
    pub fn next_overlap_timestamp(&self, sync_state: &Self) -> (state: Option<OverlapSlotState>)
        ensures
            exists|now: u64| #[trigger] self.meets_next_by_clock(*sync_state, now, state),
    {
        let now: u64 = now_micros();
        let state = if now <= u64::MAX - 2 * CHANNEL_SEQUENCE_DURATION {
            Some(self.next_overlap_timestamp_at(sync_state, now))
        } else {
            None
        };
        assert(self.meets_next_by_clock(*sync_state, now, state));
        state
    }

    /// Whether `state` says where the channel sequence of a peer meets ours next, if the clock has
    /// room for that.
    pub open spec fn meets_next_by_clock(
        &self,
        other: SynchronizationState,
        now: u64,
        state: Option<OverlapSlotState>,
    ) -> bool {
        if now <= u64::MAX - 2 * CHANNEL_SEQUENCE_DURATION {
            state matches Some(state) && self.meets_next(other, now as int, state)
        } else {
            state is None
        }
    }

    /// The timestamp at which the next MIF should be transmitted. There is none if the clock is
    /// about to run out.
    pub fn mif_transmition_time(&self) -> (timestamp: Option<u64>)
        ensures
            exists|now: u64|
                if now <= u64::MAX - 2 * CHANNEL_SEQUENCE_DURATION {
                    timestamp == Some((#[trigger] self.mif_time(now as int)) as u64)
                } else {
                    timestamp is None
                },
    {
        let now: u64 = now_micros();
        let ghost time = self.mif_time(now as int);
        if now <= u64::MAX - 2 * CHANNEL_SEQUENCE_DURATION {
            Some(self.mif_transmition_time_at(now))
        } else {
            None
        }
    }

    /// The timestamp at which the next MIF should be transmitted.
    pub fn mif_transmition_time_at(&self, now: u64) -> (timestamp: u64)
        requires
            now <= u64::MAX - 2 * CHANNEL_SEQUENCE_DURATION,
        ensures
            timestamp == self.mif_time(now as int),
    {
        let duration_since_epoch: u64 = self.elapsed_since_tsf_epoch_at(now);
        let slot: usize = if Self::remaining_slot_length(duration_since_epoch) < 32 {
            Self::next_slot_index(duration_since_epoch)
        } else {
            Self::current_slot_index(duration_since_epoch)
        };
        self.slot_start_timestamp_at(slot, TU_DURATION * 16, now)
    }

    /// Generate the synchronization parameters from this synchronization state.
    pub fn generate_tlv_at(&self, master_address: [u8; 6], now: u64) -> (parameters:
        SynchronizationParameters)
        ensures
            parameters == self.parameters(master_address, now as int),
    {
        let duration_since_epoch: u64 = self.elapsed_since_tsf_epoch_at(now);
        SynchronizationParameters {
            next_channel: self.next_channel(duration_since_epoch),
            tx_counter: Self::remaining_slot_length(duration_since_epoch),
            master_channel: 6,
            guard_time: 0,
            aw_period: 16,
            af_period: 110,
            awdl_flags: 0x1800,
            aw_ext_length: 16,
            aw_common_length: 16,
            remaining_aw_length: Self::remaining_aw_length(duration_since_epoch),
            min_ext_count: 3,
            max_multicast_ext_count: 3,
            max_unicast_ext_count: 3,
            max_af_ext_count: 3,
            master_address,
            presence_mode: 4,
            aw_seq_number: Self::aw_seq_number(duration_since_epoch),
            ap_beacon_alignment_delta: 0,
            step_count: 4,
            channel_flags: 0x2b,
            channel_sequence: self.channel_sequence,
        }
    }

    /// Generate the synchronization parameters from this synchronization state.
    pub fn generate_tlv(&self, master_address: [u8; 6]) -> (parameters: SynchronizationParameters)
        ensures
            exists|now: u64| parameters == #[trigger] self.parameters(master_address, now as int),
    {
        self.generate_tlv_at(master_address, now_micros())
    }
}

/// The sequence number of the availability window tells the slot.
proof fn lemma_slot_of_window(time: int)
    requires
        time >= 0,
    ensures
        spec_aw_seq_number(time) / 4 % 16 == time / 65536 % 16,
        (spec_aw_seq_number(time) / 4 + 1) % 16 == (time / 65536 + 1) % 16,
{
    let windows = time / 16384;
    let rounds = windows / 65536;
    assert(spec_aw_seq_number(time) == windows - 65536 * rounds);
    assert((windows - 65536 * rounds) / 4 == windows / 4 - 16384 * rounds);
    vstd::arithmetic::div_mod::lemma_div_denominator(time, 16384, 4);
    assert(windows / 4 == time / 65536);
    let slots = time / 65536;
    assert(slots - 16384 * rounds == slots + 16 * (-1024 * rounds));
    vstd::arithmetic::div_mod::lemma_mod_multiples_vanish(-1024 * rounds, slots, 16);
    vstd::arithmetic::div_mod::lemma_mod_multiples_vanish(-1024 * rounds, slots + 1, 16);
}

/// What is left of a time when it is cut to 64 bits is the same up to whole channel sequences.
proof fn lemma_whole_sequences(time: int)
    ensures
        time % 0x1_0000_0000_0000_0000 % 1048576 == time % 1048576,
{
    let rounds = time / 0x1_0000_0000_0000_0000;
    let cut = time % 0x1_0000_0000_0000_0000;
    assert(time == cut + 1048576 * (17592186044416 * rounds));
    vstd::arithmetic::div_mod::lemma_mod_multiples_vanish(17592186044416 * rounds, cut, 1048576);
}

/// Slots follow each other within a channel sequence.
proof fn lemma_slot_of(time: int)
    ensures
        slot_at(time) == time % 1048576 / 65536,
        time % 65536 == time % 1048576 % 65536,
{
}

/// A slot lasts until its end.
proof fn lemma_slot_lasts(state: SynchronizationState, from: int, time: int)
    requires
        from <= time < from + 65536 - state.elapsed(from) % 65536,
    ensures
        state.channel_at(time) == state.channel_at(from),
{
    let epoch = state.tsf_epoch_in_us as int;
    lemma_whole_sequences(from - epoch);
    lemma_whole_sequences(time - epoch);
    lemma_slot_of(state.elapsed(from));
    lemma_slot_of(state.elapsed(time));
    lemma_slot_of(from - epoch);
    lemma_slot_of(time - epoch);
    assert((from - epoch) / 65536 == (time - epoch) / 65536);
}

/// The channels repeat after whole channel sequences.
proof fn lemma_channels_repeat(state: SynchronizationState, from: int, time: int)
    requires
        (time - from) % 1048576 == 0,
    ensures
        state.channel_at(time) == state.channel_at(from),
{
    let epoch = state.tsf_epoch_in_us as int;
    lemma_whole_sequences(from - epoch);
    lemma_whole_sequences(time - epoch);
    lemma_slot_of(state.elapsed(from));
    lemma_slot_of(state.elapsed(time));
    let sequences = (time - from) / 1048576;
    assert(time - epoch == (from - epoch) + 1048576 * sequences);
    vstd::arithmetic::div_mod::lemma_mod_multiples_vanish(sequences, from - epoch, 1048576);
}

/// Where two channel sequences meet next is a matter of the sequences and the time alone, and goes
/// for both sides.
pub proof fn next_meeting_is_unique(
    ours: SynchronizationState,
    theirs: SynchronizationState,
    now: int,
    state: OverlapSlotState,
    other: OverlapSlotState,
)
    requires
        ours.meets_next(theirs, now, state),
        theirs.meets_next(ours, now, other),
    ensures
        state == other,
{
    assert forall|time: int| #[trigger] ours.overlaps_at(theirs, time) == theirs.overlaps_at(
        ours,
        time,
    ) by {}
    assert(ours.overlaps_at(theirs, now) == theirs.overlaps_at(ours, now));
    if let OverlapSlotState::OverlappingAt(next) = state {
        assert(theirs.overlaps_at(ours, next as int));
        assert(!ours.overlaps_at(theirs, now));
    }
    if let OverlapSlotState::OverlappingAt(next) = other {
        assert(ours.overlaps_at(theirs, next as int));
        assert(!theirs.overlaps_at(ours, now));
    }
}

/// The timestamp of a slot is not in the past, not further away than one channel sequence, and the
/// slot is the current one at that time.
pub proof fn slot_starts_next(epoch: int, now: int, slot: int, offset: int)
    requires
        0 <= slot < 16,
        0 <= offset < 65536,
    ensures
        now <= slot_start(epoch, now, slot, offset) < now + 1048576,
        slot_at(micros_between(epoch, slot_start(epoch, now, slot, offset))) == slot,
        micros_between(epoch, slot_start(epoch, now, slot, offset)) % 65536 == offset,
{
    let start = slot_start(epoch, now, slot, offset);
    let elapsed = micros_between(epoch, now) % 1048576;
    lemma_whole_sequences(now - epoch);
    lemma_whole_sequences(start - epoch);
    let sequences = (now - epoch) / 1048576;
    assert(now - epoch == 1048576 * sequences + elapsed);
    let position = 65536 * slot + offset;
    if elapsed > position {
        assert(start - epoch == 1048576 * (sequences + 1) + position);
    } else {
        assert(start - epoch == 1048576 * sequences + position);
    }
    assert((start - epoch) % 1048576 == position);
    assert(micros_between(epoch, start) % 1048576 == position);
    lemma_slot_of(micros_between(epoch, start));
}

/// A peer that receives the synchronization parameters recovers the TSF epoch, with an error of
/// less than one time unit, as long as the sequence number of the availability window tells the
/// time since the epoch.
pub proof fn recovered_epoch_is_close(state: SynchronizationState, address: [u8; 6], now: int)
    requires
        state.tsf_epoch_in_us <= now < state.tsf_epoch_in_us + 65536 * 16384,
        0 <= now < 0x4000_0000_0000_0000,
    ensures
        ({
            let parameters = state.parameters(address, now);
            let position = WindowPosition {
                aw_period: parameters.aw_period,
                aw_seq_number: parameters.aw_seq_number,
                remaining_aw_length: parameters.remaining_aw_length,
            };
            state.tsf_epoch_in_us <= wrapped(now - position.elapsed()) < state.tsf_epoch_in_us
                + 1024
        }),
{
    let elapsed = state.elapsed(now);
    assert(elapsed == now - state.tsf_epoch_in_us);
    let parameters = state.parameters(address, now);
    assert(parameters.aw_seq_number == elapsed / 16384);
    assert(16 - parameters.remaining_aw_length == elapsed % 16384 / 1024);
    assert(parameters.aw_period * parameters.aw_seq_number == 16 * (elapsed / 16384));
    assert(1024 * (16 * (elapsed / 16384) + elapsed % 16384 / 1024) == elapsed - elapsed % 1024);
}

/// A peer that adopted a master shares its slots at any time.
pub proof fn followers_share_slots(
    before: SynchronizationState,
    master: SynchronizationState,
    now: int,
)
    ensures
        ({
            let after = SynchronizationState { tsf_epoch_in_us: master.tsf_epoch_in_us, ..before };
            slot_at(after.elapsed(now)) == slot_at(master.elapsed(now))
        }),
{
}

/// The state of the master election for a peer.
#[derive(Clone, Copy, Debug)]
pub struct ElectionState {
    pub self_metric: u32,
    pub self_counter: Option<u32>,
    pub master_metric: u32,
    pub master_counter: Option<u32>,
    /// The peer that is synchronized to.
    pub sync_peer: Option<[u8; 6]>,
    /// The peer that all others follow.
    pub root_peer: [u8; 6],
    pub distance_to_master: u32,
}

impl ElectionState {
    /// The election state of a peer that is its own master.
    pub open spec fn initial(address: [u8; 6]) -> ElectionState {
        ElectionState {
            self_metric: 60,
            self_counter: Some(0),
            master_metric: 60,
            master_counter: Some(0),
            sync_peer: Some(address),
            root_peer: address,
            distance_to_master: 0,
        }
    }

    /// The peer that is followed.
    pub open spec fn master(&self) -> [u8; 6] {
        match self.sync_peer {
            Some(address) => address,
            None => self.root_peer,
        }
    }

    /// The election state after a peer with election state `master` was adopted.
    pub open spec fn following(&self, address: [u8; 6], master: ElectionState) -> ElectionState {
        ElectionState {
            self_metric: self.self_metric,
            self_counter: self.self_counter,
            master_metric: master.master_metric,
            master_counter: Some(
                match master.master_counter {
                    Some(counter) => counter,
                    None => 0,
                },
            ),
            sync_peer: Some(address),
            root_peer: master.root_peer,
            distance_to_master: ((master.distance_to_master + 1) % 0x1_0000_0000) as u32,
        }
    }

    /// Whether all that is announced of this state is known.
    pub open spec fn is_complete(&self) -> bool {
        self.self_counter is Some && self.master_counter is Some && self.sync_peer is Some
    }

    /// Create a new election state with default parameters.
    pub fn new(address: [u8; 6]) -> (state: Self)
        ensures
            state == Self::initial(address),
    {
        let metric: u32 = 60;
        Self {
            self_metric: metric,
            master_metric: metric,
            self_counter: Some(0),
            master_counter: Some(0),
            distance_to_master: 0,
            sync_peer: Some(address),
            root_peer: address,
        }
    }

    /// Sets the election state, as if the peer were it's own master.
    pub fn set_master_to_self(&mut self, our_address: [u8; 6])
        ensures
            *final(self) == Self::initial(our_address),
    {
        *self = Self::new(our_address);
    }

    /// Is the specified address the master.
    pub fn is_master(&self, address: &[u8; 6]) -> (master: bool)
        ensures
            master == (self.master()@ == address@),
    {
        match &self.sync_peer {
            Some(sync_peer) => bytes_equal(sync_peer, address),
            None => bytes_equal(&self.root_peer, address),
        }
    }

    /// Adopt the election parameters as the master parameters. The distance wraps around at its
    /// largest value.
    pub fn adopt_master(&mut self, master_address: &[u8; 6], master_election_state: &ElectionState)
        ensures
            *final(self) == old(self).following(*master_address, *master_election_state),
    {
        self.master_metric = master_election_state.master_metric;
        self.master_counter = Some(
            match master_election_state.master_counter {
                Some(counter) => counter,
                None => 0,
            },
        );
        self.distance_to_master = master_election_state.distance_to_master.wrapping_add(1);
        self.root_peer = master_election_state.root_peer;
        self.sync_peer = Some(*master_address);
    }

    /// Whether an action frame tells this election state: in the second version of the parameters
    /// or, without one, in the first.
    pub open spec fn is_told_by(&self, action_frame: ActionFrame) -> bool {
        match first_tlv(action_frame.tlvs@, TLV_ELECTION_V2) {
            Some(value) => {
                &&& self.self_metric == le_value(value.subrange(24, 28))
                &&& self.self_counter matches Some(counter) && counter == le_value(
                    value.subrange(36, 40),
                )
                &&& self.master_metric == le_value(value.subrange(20, 24))
                &&& self.master_counter matches Some(counter) && counter == le_value(
                    value.subrange(12, 16),
                )
                &&& self.sync_peer matches Some(address) && address@ == value.subrange(6, 12)
                &&& self.root_peer@ == value.subrange(0, 6)
                &&& self.distance_to_master == le_value(value.subrange(16, 20))
            },
            None => match first_tlv(action_frame.tlvs@, TLV_ELECTION) {
                Some(value) => {
                    &&& self.self_metric == le_value(value.subrange(15, 19))
                    &&& self.self_counter is None
                    &&& self.master_metric == le_value(value.subrange(11, 15))
                    &&& self.master_counter is None
                    &&& self.sync_peer is None
                    &&& self.root_peer@ == value.subrange(5, 11)
                    &&& self.distance_to_master == value[3]
                },
                None => false,
            },
        }
    }

    /// Derive the election state of the peer, from an action frame.
    pub fn from_af(action_frame: &ActionFrame) -> (state: Option<Self>)
        ensures
            state is Some == action_frame.tells_election(),
            state matches Some(state) ==> state.is_told_by(*action_frame),
    {
        match find_election_v2(&action_frame.tlvs) {
            Some(tlv) => Some(
                Self {
                    self_metric: tlv.self_metric,
                    self_counter: Some(tlv.self_counter),
                    master_metric: tlv.master_metric,
                    master_counter: Some(tlv.master_counter),
                    sync_peer: Some(tlv.sync_address),
                    root_peer: tlv.master_address,
                    distance_to_master: tlv.distance_to_master,
                },
            ),
            None => match find_election(&action_frame.tlvs) {
                Some(tlv) => Some(
                    Self {
                        self_metric: tlv.self_metric,
                        self_counter: None,
                        master_metric: tlv.master_metric,
                        master_counter: None,
                        root_peer: tlv.master_address,
                        distance_to_master: tlv.distance_to_master as u32,
                        sync_peer: None,
                    },
                ),
                None => None,
            },
        }
    }

    /// Whether the other election state is more eligible to be master: it has the larger counter,
    /// where none is less than any, or the same counter and the larger metric.
    pub open spec fn yields_to(&self, rhs: ElectionState) -> bool {
        match (self.self_counter, rhs.self_counter) {
            (Some(counter), Some(rhs_counter)) => counter < rhs_counter || (counter == rhs_counter
                && self.self_metric < rhs.self_metric),
            (Some(_), None) => false,
            (None, Some(_)) => true,
            (None, None) => self.self_metric < rhs.self_metric,
        }
    }

    /// Check if the other election state is more eligible to be master, than this state.
    pub fn is_more_eligible(&self, rhs: &Self) -> (more_eligible: bool)
        ensures
            more_eligible == self.yields_to(*rhs),
    {
        match (self.self_counter, rhs.self_counter) {
            (Some(counter), Some(rhs_counter)) => counter < rhs_counter || (counter == rhs_counter
                && self.self_metric < rhs.self_metric),
            (Some(_), None) => false,
            (None, Some(_)) => true,
            (None, None) => self.self_metric < rhs.self_metric,
        }
    }

    /// The election parameters in their first version. Of the distance, the lower eight bits are
    /// given.
    pub open spec fn tlv_v1(&self) -> ElectionParameters {
        ElectionParameters {
            flags: 0,
            id: 0,
            distance_to_master: (self.distance_to_master % 256) as u8,
            master_address: self.root_peer,
            master_metric: self.master_metric,
            self_metric: self.self_metric,
        }
    }

    /// The election parameters in their second version.
    pub open spec fn tlv_v2(&self) -> ElectionParametersV2 {
        ElectionParametersV2 {
            master_address: self.root_peer,
            sync_address: self.sync_peer->Some_0,
            master_counter: self.master_counter->Some_0,
            distance_to_master: self.distance_to_master,
            master_metric: self.master_metric,
            self_metric: self.self_metric,
            election_id: 0,
            self_counter: self.self_counter->Some_0,
        }
    }

    /// Generate the election parameters in their first version.
    pub fn generate_tlv_v1(&self) -> (parameters: ElectionParameters)
        ensures
            parameters == self.tlv_v1(),
    {
        ElectionParameters {
            flags: 0,
            id: 0,
            distance_to_master: (self.distance_to_master % 256) as u8,
            master_address: self.root_peer,
            master_metric: self.master_metric,
            self_metric: self.self_metric,
        }
    }

    /// Generate the election parameters in their second version, if all of them are known.
    pub fn generate_tlv_v2(&self) -> (parameters: Option<ElectionParametersV2>)
        ensures
            parameters is Some == self.is_complete(),
            parameters matches Some(parameters) ==> parameters == self.tlv_v2(),
    {
        match (self.self_counter, self.master_counter, self.sync_peer) {
            (Some(self_counter), Some(master_counter), Some(sync_address)) => Some(
                ElectionParametersV2 {
                    self_metric: self.self_metric,
                    master_metric: self.master_metric,
                    self_counter,
                    master_counter,
                    distance_to_master: self.distance_to_master,
                    master_address: self.root_peer,
                    sync_address,
                    election_id: 0,
                },
            ),
            _ => None,
        }
    }
}

/// Of two election states at most one is more eligible than the other, and none is more eligible
/// than itself. Whoever is not less eligible than a second, which is not less eligible than a
/// third, is not less eligible than the third either.
pub proof fn eligibility_is_an_order(a: ElectionState, b: ElectionState, c: ElectionState)
    ensures
        !(a.yields_to(b) && b.yields_to(a)),
        !a.yields_to(a),
        !a.yields_to(b) && !b.yields_to(c) ==> !a.yields_to(c),
{
}

/// Whoever was adopted is the master, however far down the tree, and no state that is announced
/// gets lost.
pub proof fn adopted_peer_is_master(
    state: ElectionState,
    address: [u8; 6],
    master: ElectionState,
    own_address: [u8; 6],
)
    ensures
        state.following(address, master).master() == address,
        state.following(address, master).root_peer == master.root_peer,
        state.is_complete() ==> state.following(address, master).is_complete(),
        ElectionState::initial(own_address).master() == own_address,
        ElectionState::initial(own_address).is_complete(),
{
}

/// The domain of AirPlay services.
pub const DOMAIN_AIRPLAY: u16 = 0xc001;

/// The domain of AirDrop services.
pub const DOMAIN_AIRDROP: u16 = 0xc007;

/// The port in the first service record for a domain.
pub open spec fn first_port(records: Seq<Option<(u16, u16)>>, domain: u16) -> Option<u16>
    decreases records.len(),
{
    if records.len() == 0 {
        None
    } else {
        match records.first() {
            Some(record) if record.0 == domain => Some(record.1),
            _ => first_port(records.drop_first(), domain),
        }
    }
}

/// A port that stays as it is once it is known.
pub open spec fn known_or(known: Option<u16>, found: Option<u16>) -> Option<u16> {
    if known is Some {
        known
    } else {
        found
    }
}

/// An AWDL peer.
#[derive(Clone, Copy, Debug)]
pub struct AwdlPeer {
    pub synchronization_state: SynchronizationState,
    pub election_state: ElectionState,
    /// The timestamp when the last frame was received from this peer.
    pub last_frame: u64,
    pub data_rate: TxPhyRate,
    pub airdrop_port: Option<u16>,
    pub airplay_port: Option<u16>,
}

impl AwdlPeer {
    /// Whether this is what an action frame from a new peer tells.
    pub open spec fn is_introduced_by(
        &self,
        action_frame: ActionFrame,
        rx_timestamp: u64,
        now: u64,
    ) -> bool {
        &&& self.synchronization_state.is_told_by(action_frame, rx_timestamp)
        &&& self.election_state.is_told_by(action_frame)
        &&& self.last_frame == now
        &&& self.data_rate == TxPhyRate::Ofdm(12)
        &&& self.airdrop_port is None
        &&& self.airplay_port is None
    }

    /// Create a peer with the data from an action frame.
    pub fn new_with_action_frame(action_frame: &ActionFrame, rx_timestamp: u64, now: u64) -> (peer:
        Option<Self>)
        requires
            action_frame.is_readable(),
        ensures
            peer is Some == (action_frame.tells_synchronization()
                && action_frame.tells_election()),
            peer matches Some(peer) ==> peer.is_introduced_by(*action_frame, rx_timestamp, now),
    {
        let synchronization_state = match SynchronizationState::from_af(
            action_frame,
            rx_timestamp,
        ) {
            Some(state) => state,
            None => return None,
        };
        let election_state = match ElectionState::from_af(action_frame) {
            Some(state) => state,
            None => return None,
        };
        Some(
            Self {
                synchronization_state,
                election_state,
                data_rate: TxPhyRate::Ofdm(12),
                last_frame: now,
                airdrop_port: None,
                airplay_port: None,
            },
        )
    }

    /// Whether this is what is known of a peer after an action frame: its states as far as the
    /// frame tells them, and the ports of services that were not known before.
    pub open spec fn is_updated_by(
        &self,
        before: AwdlPeer,
        action_frame: ActionFrame,
        rx_timestamp: u64,
        now: u64,
    ) -> bool {
        let records = service_records(action_frame.tlvs@);
        &&& self.last_frame == now
        &&& self.data_rate == before.data_rate
        &&& if action_frame.tells_synchronization() {
            self.synchronization_state.is_told_by(action_frame, rx_timestamp)
        } else {
            self.synchronization_state == before.synchronization_state
        }
        &&& if action_frame.tells_election() {
            self.election_state.is_told_by(action_frame)
        } else {
            self.election_state == before.election_state
        }
        &&& self.airplay_port == known_or(before.airplay_port, first_port(records, DOMAIN_AIRPLAY))
        &&& self.airdrop_port == known_or(before.airdrop_port, first_port(records, DOMAIN_AIRDROP))
    }

    /// Update the peer with the information from the provided action frame.
    ///
    /// The returned bool indicates, whether services were discovered.
    pub fn update(&mut self, action_frame: &ActionFrame, rx_timestamp: u64, now: u64) -> (discovered:
        bool)
        requires
            action_frame.is_readable(),
            action_frame.has_readable_services(),
        ensures
            final(self).is_updated_by(*old(self), *action_frame, rx_timestamp, now),
            discovered == (final(self).airplay_port != old(self).airplay_port
                || final(self).airdrop_port != old(self).airdrop_port),
    {
        self.last_frame = now;
        if let Some(synchronization_state) = SynchronizationState::from_af(
            action_frame,
            rx_timestamp,
        ) {
            self.synchronization_state = synchronization_state;
        }
        if let Some(election_state) = ElectionState::from_af(action_frame) {
            self.election_state = election_state;
        }
        let ghost states = *self;
        let mut service_discovered = false;
        let records = get_service_records(&action_frame.tlvs);
        let mut i: usize = 0;
        assert(records@.subrange(0, records@.len() as int) =~= records@);
        while i < records.len()
            invariant
                i <= records@.len(),
                *self == (AwdlPeer {
                    airplay_port: self.airplay_port,
                    airdrop_port: self.airdrop_port,
                    ..states
                }),
                known_or(states.airplay_port, first_port(records@, DOMAIN_AIRPLAY)) == known_or(
                    self.airplay_port,
                    first_port(
                        records@.subrange(i as int, records@.len() as int),
                        DOMAIN_AIRPLAY,
                    ),
                ),
                known_or(states.airdrop_port, first_port(records@, DOMAIN_AIRDROP)) == known_or(
                    self.airdrop_port,
                    first_port(
                        records@.subrange(i as int, records@.len() as int),
                        DOMAIN_AIRDROP,
                    ),
                ),
                states.airplay_port is Some ==> self.airplay_port == states.airplay_port,
                states.airdrop_port is Some ==> self.airdrop_port == states.airdrop_port,
                service_discovered == (self.airplay_port != states.airplay_port
                    || self.airdrop_port != states.airdrop_port),
            decreases records@.len() - i,
        {
            let ghost rest = records@.subrange(i as int, records@.len() as int);
            assert(rest.drop_first() =~= records@.subrange(i + 1, records@.len() as int));
            if let Some((domain, port)) = records[i] {
                if domain == DOMAIN_AIRPLAY {
                    if self.airplay_port.is_none() {
                        self.airplay_port = Some(port);
                        service_discovered = true;
                    }
                } else if domain == DOMAIN_AIRDROP {
                    if self.airdrop_port.is_none() {
                        self.airdrop_port = Some(port);
                        service_discovered = true;
                    }
                }
            }
            i += 1;
        }
        service_discovered
    }
}

} // verus!

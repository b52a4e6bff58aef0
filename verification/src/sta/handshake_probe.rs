//! Optional single-station handshake flight recorder.
//!
//! It contains only timings, queue counts and numeric protocol outcomes, never keys or frame
//! payloads. A new connection overwrites the previous snapshot.
use vstd::prelude::*;

use crate::frame::{check_crypto_header, crypto_header_readable};
use crate::mgmt::{is_deauthentication, parse_deauthentication};
use crate::radio::TxError;
use crate::sta::rsn_group::{is_key_frame, spec_is_key_frame};
use crate::time::now_micros;

verus! {

/// Length of the ring of events.
pub const EVENT_COUNT: usize = 64;
/// Number of phases.
pub const PHASE_COUNT: usize = 11;
/// The phase in which the handshake is complete.
pub const PHASE_COMPLETE: u8 = 10;

/// An event.
///
/// Phases: start, PMK, PMK done, auth, assoc, M1 wait, PTK, M2 send, M3 wait, M4 send, local 4WHS
/// complete. Times are microseconds relative to reset; the largest value means unset. Local
/// completion does not prove that the access point accepted M4.
#[derive(Clone, Copy, Debug, PartialEq, Eq, Structural)]
pub struct Event {
    /// Time of the event.
    pub us: u32,
    /// Phase in which it happened.
    pub phase: u8,
    /// Kind of event.
    pub kind: u8,
    /// First parameter.
    pub a: u32,
    /// Second parameter.
    pub b: u32,
}

impl Default for Event {
    fn default() -> (event: Self)
        ensures
            event == (Event { us: 0, phase: 0, kind: 0, a: 0, b: 0 }),
    {
        Event { us: 0, phase: 0, kind: 0, a: 0, b: 0 }
    }
}

/// The counters and the ring of events.
///
/// Ring records use kind 1=phase, 2=parsed M1, 3=M1 reject, 4=parsed M3, 5=M3 reject, 6=EAPOL route,
/// 7=management route, 8=EAPOL TX outcome, 9=initial queue lengths, 10=received EAPOL-Key header
/// metadata. Reject a: 1=MIC, 2=parse, 3=flags, 4=missing GTK. TX a: 0=success, 1=MAC error,
/// 2=missing completion. Route a is packed kind/queue success; b packs current
/// foreground/background queue depths. Kind 10 a is unverified key information; b bit 0 is
/// connected, bit 1 retry. Kind 12 a is authenticated M3 retry accepted (1) or rejected (0). Kind 13
/// a is M4 retry result: 0 success, 1 failed completion. Kind 14 a=1 records a same-exchange M1
/// retry (unauthenticated). Kind 15 a is its M2 result: 0 success, 1 failed completion.
#[derive(Clone, Copy, Debug)]
pub struct Snapshot {
    /// The current phase.
    pub phase: u8,
    /// When each phase was entered last.
    pub phase_us: [u32; 11],
    /// Depths of the foreground and background queue.
    pub queues: [usize; 2],
    /// EAPOL frames that were routed.
    pub eapol_routed: u32,
    /// EAPOL frames that were dropped.
    pub eapol_dropped: u32,
    /// Frames that could not be routed.
    pub route_failures: u32,
    /// The latest events, in a ring.
    pub events: [Event; 64],
    /// How many events there were.
    pub total_events: u32,
}

impl Snapshot {
    /// A snapshot without events.
    pub fn empty() -> (snapshot: Self)
        ensures
            snapshot.is_empty(),
    {
        let snapshot = Snapshot {
            phase: 0,
            phase_us: [u32::MAX; 11],
            queues: [0; 2],
            eapol_routed: 0,
            eapol_dropped: 0,
            route_failures: 0,
            events: [Event { us: 0, phase: 0, kind: 0, a: 0, b: 0 }; 64],
            total_events: 0,
        };
        assert(snapshot.queues@ =~= seq![0usize, 0]);
        snapshot
    }

    /// Whether nothing was recorded.
    pub open spec fn is_empty(&self) -> bool {
        &&& self.phase == 0
        &&& forall|i: int| 0 <= i < PHASE_COUNT ==> self.phase_us@[i] == u32::MAX
        &&& self.queues@ == seq![0usize, 0]
        &&& self.eapol_routed == 0
        &&& self.eapol_dropped == 0
        &&& self.route_failures == 0
        &&& forall|i: int|
            0 <= i < EVENT_COUNT ==> self.events@[i] == (Event {
                us: 0,
                phase: 0,
                kind: 0,
                a: 0,
                b: 0,
            })
        &&& self.total_events == 0
    }
}

/// State of the recorder.
pub struct State {
    /// When the recorder was reset.
    pub start: u32,
    /// What was recorded since.
    pub snapshot: Snapshot,
}

/// The time from `start` to `now`, for clocks that wrap around.
pub open spec fn elapsed(start: u32, now: u32) -> u32 {
    if now >= start {
        (now - start) as u32
    } else {
        (now - start + 0x1_0000_0000) as u32
    }
}

/// Cut a reading of the clock, in microseconds, to its lower 32 bits.
pub fn clock_time(micros: u64) -> (time: u32)
    ensures
        time == micros as int % 0x1_0000_0000,
{
    (micros % 0x1_0000_0000) as u32
}

/// Read the clock, in 32 bits. Whatever the clock shows, any time can come of it.
fn now() -> (now: u32)
{
    clock_time(now_micros())
}

/// Append an event to the ring; the oldest one gives way.
fn append(state: &mut State, now: u32, kind: u8, a: u32, b: u32)
    ensures
        final(state).is_after_append(*old(state), now, kind, a, b),
{
    let index: usize = state.snapshot.total_events as usize % EVENT_COUNT;
    let event = Event {
        us: now.wrapping_sub(state.start),
        phase: state.snapshot.phase,
        kind,
        a,
        b,
    };
    state.snapshot.events[index] = event;
    state.snapshot.total_events = state.snapshot.total_events.wrapping_add(1);
}

impl State {
    /// Start to record.
    pub fn new() -> (state: Self)
        ensures
            state.start == 0,
            state.snapshot.is_empty(),
    {
        State { start: 0, snapshot: Snapshot::empty() }
    }

    /// What clearing the recorder leads to.
    pub open spec fn is_after_reset(&self, time: u32) -> bool {
        &&& self.start == time
        &&& self.snapshot.is_empty()
    }

    /// What appending an event leads to.
    pub open spec fn is_after_append(&self, before: State, now: u32, kind: u8, a: u32, b: u32)
        -> bool {
        &&& self.start == before.start
        &&& self.snapshot.events@ == before.snapshot.events@.update(
            before.snapshot.total_events as int % EVENT_COUNT as int,
            Event {
                us: elapsed(before.start, now),
                phase: before.snapshot.phase,
                kind,
                a,
                b,
            },
        )
        &&& self.snapshot.total_events == if before.snapshot.total_events == u32::MAX {
            0
        } else {
            (before.snapshot.total_events + 1) as u32
        }
        &&& self.snapshot == (Snapshot {
            events: self.snapshot.events,
            total_events: self.snapshot.total_events,
            ..before.snapshot
        })
    }

    /// Whether the counters have room for another frame.
    pub open spec fn can_count(&self, kind: u8, success: bool) -> bool {
        !(self.snapshot.phase == PHASE_COMPLETE && kind == 0) ==> {
            &&& !success ==> self.snapshot.route_failures < u32::MAX
            &&& kind == 1 && success ==> self.snapshot.eapol_routed < u32::MAX
            &&& kind == 1 && !success ==> self.snapshot.eapol_dropped < u32::MAX
        }
    }

    /// What entering a phase leads to.
    pub open spec fn is_after_phase(&self, before: State, phase: u8, now: u32) -> bool {
        exists|entered: State|
            {
                &&& entered.start == before.start
                &&& entered.snapshot.phase_us@ == before.snapshot.phase_us@.update(
                    phase as int,
                    elapsed(before.start, now),
                )
                &&& entered.snapshot == (Snapshot {
                    phase,
                    phase_us: entered.snapshot.phase_us,
                    ..before.snapshot
                })
                &&& #[trigger] self.is_after_append(entered, now, 1, phase as u32, 0)
            }
    }

    /// What routing a frame leads to. Ordinary traffic after completion is not recorded.
    pub open spec fn is_after_routed(
        &self,
        before: State,
        kind: u8,
        success: bool,
        queues: [usize; 2],
        now: u32,
    ) -> bool {
        let counted = State {
            snapshot: Snapshot {
                queues,
                route_failures: (before.snapshot.route_failures + if success {
                    0int
                } else {
                    1
                }) as u32,
                eapol_routed: (before.snapshot.eapol_routed + if kind == 1 && success {
                    1int
                } else {
                    0
                }) as u32,
                eapol_dropped: (before.snapshot.eapol_dropped + if kind == 1 && !success {
                    1int
                } else {
                    0
                }) as u32,
                ..before.snapshot
            },
            ..before
        };
        if before.snapshot.phase == PHASE_COMPLETE && kind == 0 {
            *self == before
        } else if kind == 0 {
            *self == counted
        } else {
            self.is_after_append(
                counted,
                now,
                if kind == 1 {
                    6
                } else {
                    7
                },
                packed_outcome(kind, success),
                packed_depths(queues@),
            )
        }
    }
}

/// A kind of frame and whether it was routed, in one number.
pub open spec fn packed_outcome(kind: u8, success: bool) -> u32 {
    (kind * 256 + if success {
        1int
    } else {
        0
    }) as u32
}

/// Two queue depths in one number.
pub open spec fn packed_depths(queues: Seq<usize>) -> u32 {
    ((queues[0] as u32) << 16) | queues[1] as u32
}

/// The kind under which a routed frame is recorded: 1 for a key frame, 2 for a deauthentication, 0
/// for ordinary traffic.
pub open spec fn route_kind_of(frame: Seq<u8>) -> u8 {
    if crypto_header_readable(frame) && spec_is_key_frame(frame) {
        1
    } else if is_deauthentication(frame) {
        2
    } else {
        0
    }
}

/// Get the kind under which a routed frame is recorded.
pub fn route_kind(frame: &[u8]) -> (kind: u8)
    ensures
        kind == route_kind_of(frame@),
{
    if check_crypto_header(frame) && is_key_frame(frame) {
        1
    } else if parse_deauthentication(frame).is_some() {
        2
    } else {
        0
    }
}

/// Get the number that stands for the outcome of sending a key frame: 0 for success, 1 for an error
/// of the MAC, 2 for a missing completion.
pub fn tx_outcome(completion: &Option<Result<u8, TxError>>) -> (outcome: u32)
    ensures
        outcome == match *completion {
            Some(Ok(_)) => 0u32,
            Some(Err(_)) => 1,
            None => 2,
        },
{
    match completion {
        Some(Ok(_)) => 0,
        Some(Err(_)) => 1,
        None => 2,
    }
}

/// Clear the recorder at the given time. All later times are relative to it.
pub fn reset_at(state: &mut State, time: u32)
    ensures
        final(state).is_after_reset(time),
{
    *state = State { start: time, snapshot: Snapshot::empty() };
}

/// Clear the recorder before attempting a connection (including scanning).
pub fn reset(state: &mut State)
    ensures
        exists|time: u32| final(state).is_after_reset(time),
{
    let time: u32 = now();
    reset_at(state, time);
}

/// Copy the current counters and ring.
pub fn snapshot(state: &State) -> (snapshot: Snapshot)
    ensures
        snapshot == state.snapshot,
{
    state.snapshot
}

/// Record that a phase was entered at the given time.
pub fn phase_at(state: &mut State, phase: u8, time: u32)
    requires
        phase < PHASE_COUNT,
    ensures
        final(state).is_after_phase(*old(state), phase, time),
{
    state.snapshot.phase = phase;
    state.snapshot.phase_us[phase as usize] = time.wrapping_sub(state.start);
    append(state, time, 1, phase as u32, 0);
}

/// Record that a phase was entered just now.
pub fn phase(state: &mut State, phase: u8)
    requires
        phase < PHASE_COUNT,
    ensures
        exists|time: u32| final(state).is_after_phase(*old(state), phase, time),
{
    let time: u32 = now();
    phase_at(state, phase, time);
}

/// Record an event at the given time.
pub fn event_at(state: &mut State, kind: u8, a: u32, b: u32, time: u32)
    ensures
        final(state).is_after_append(*old(state), time, kind, a, b),
{
    append(state, time, kind, a, b);
}

/// Record an event just now.
pub fn event(state: &mut State, kind: u8, a: u32, b: u32)
    ensures
        exists|time: u32| final(state).is_after_append(*old(state), time, kind, a, b),
{
    let time: u32 = now();
    event_at(state, kind, a, b, time);
}

/// Record that a frame was routed at the given time.
///
/// EAPOL and deauthentication evidence is kept after local completion: the access point may still be
/// waiting for M4. Ordinary connected traffic does not enter the ring.
pub fn routed_at(state: &mut State, kind: u8, success: bool, queues: [usize; 2], time: u32)
    requires
        old(state).can_count(kind, success),
    ensures
        final(state).is_after_routed(*old(state), kind, success, queues, time),
{
    if state.snapshot.phase == PHASE_COMPLETE && kind == 0 {
        return;
    }
    state.snapshot.queues = queues;
    if !success {
        state.snapshot.route_failures = state.snapshot.route_failures + 1;
    }
    if kind == 1 {
        if success {
            state.snapshot.eapol_routed = state.snapshot.eapol_routed + 1;
        } else {
            state.snapshot.eapol_dropped = state.snapshot.eapol_dropped + 1;
        }
    }
    if kind != 0 {
        let outcome: u32 = kind as u32 * 256 + if success {
            1
        } else {
            0
        };
        let depths: u32 = ((queues[0] as u32) << 16) | queues[1] as u32;
        append(
            state,
            time,
            if kind == 1 {
                6
            } else {
                7
            },
            outcome,
            depths,
        );
    }
}

/// Record that a frame was routed just now.
pub fn routed(state: &mut State, kind: u8, success: bool, queues: [usize; 2])
    requires
        old(state).can_count(kind, success),
    ensures
        exists|time: u32|
            final(state).is_after_routed(*old(state), kind, success, queues, time),
{
    let time: u32 = now();
    routed_at(state, kind, success, queues, time);
}

/// The event that was appended last stands in the ring where the count before says, and all other
/// places are as they were.
pub proof fn ring_keeps_other_events(
    before: State,
    after: State,
    now: u32,
    kind: u8,
    a: u32,
    b: u32,
    place: int,
)
    requires
        after.is_after_append(before, now, kind, a, b),
        0 <= place < EVENT_COUNT,
        place != before.snapshot.total_events as int % EVENT_COUNT as int,
    ensures
        after.snapshot.events@[place] == before.snapshot.events@[place],
{
}

/// Times are relative to the reset, also where the clock wraps around in between.
pub proof fn times_are_relative_to_the_reset(start: u32, now: u32)
    ensures
        (start + elapsed(start, now)) % 0x1_0000_0000 == now,
        now >= start ==> elapsed(start, now) == now - start,
{
}

/// A phase that is entered is the current one from then on. Its time is kept, and the ring gets an
/// event for it.
pub proof fn phases_are_kept(before: State, after: State, phase: u8, now: u32)
    requires
        phase < 11,
        before.snapshot.total_events < u32::MAX,
        after.is_after_phase(before, phase, now),
    ensures
        after.snapshot.phase == phase,
        after.snapshot.phase_us@ == before.snapshot.phase_us@.update(
            phase as int,
            elapsed(before.start, now),
        ),
        after.snapshot.total_events == before.snapshot.total_events + 1,
        after.snapshot.events@[before.snapshot.total_events as int % 64] == (Event {
            us: elapsed(before.start, now),
            phase,
            kind: 1,
            a: phase as u32,
            b: 0,
        }),
        after.start == before.start,
        after.snapshot.eapol_routed == before.snapshot.eapol_routed,
        after.snapshot.eapol_dropped == before.snapshot.eapol_dropped,
        after.snapshot.route_failures == before.snapshot.route_failures,
{
}

/// Key frames are counted by whether they could be routed, failures of all frames together, and both
/// kinds of interesting frames leave an event with the depths of the queues. Ordinary traffic leaves
/// none, and once the handshake is complete it does not even count.
pub proof fn routed_frames_are_counted(
    before: State,
    after: State,
    kind: u8,
    success: bool,
    queues: [usize; 2],
    now: u32,
)
    requires
        before.can_count(kind, success),
        before.snapshot.total_events < u32::MAX,
        queues@[0] < 65536,
        queues@[1] < 65536,
        after.is_after_routed(before, kind, success, queues, now),
    ensures
        before.snapshot.phase == 10 && kind == 0 ==> after == before,
        !(before.snapshot.phase == 10 && kind == 0) ==> {
            &&& after.snapshot.queues == queues
            &&& after.snapshot.route_failures == before.snapshot.route_failures + if success {
                0int
            } else {
                1
            }
            &&& after.snapshot.eapol_routed == before.snapshot.eapol_routed + if kind == 1
                && success {
                1int
            } else {
                0
            }
            &&& after.snapshot.eapol_dropped == before.snapshot.eapol_dropped + if kind == 1
                && !success {
                1int
            } else {
                0
            }
            &&& after.snapshot.phase == before.snapshot.phase
        },
        kind == 0 ==> after.snapshot.total_events == before.snapshot.total_events,
        kind != 0 ==> {
            let event = after.snapshot.events@[before.snapshot.total_events as int % 64];
            &&& after.snapshot.total_events == before.snapshot.total_events + 1
            &&& event.kind == if kind == 1 {
                6
            } else {
                7u8
            }
            &&& event.a == 256 * kind + if success {
                1int
            } else {
                0
            }
            &&& event.b == 65536 * queues@[0] + queues@[1]
            &&& event.us == elapsed(before.start, now)
        },
{
    let high = queues@[0] as u32;
    let low = queues@[1] as u32;
    assert(high < 65536 && low < 65536 ==> (high << 16) | low == 65536 * high + low)
        by (bit_vector);
}

} // verus!

//! Opt-in, bounded gateway echo diagnostics. No packet logging occurs in the transmit path.
//!
//! Records survive scope changes and incomplete transmissions. The recorder owns no frame, key,
//! packet number or address; only its active classifier scope holds the gateway address.
use vstd::prelude::*;

use crate::bytes::{be_value, bytes_equal, lemma_be_value_pair, read_be16};
use crate::radio::TxError;
use crate::time::now_micros;

verus! {

/// Maximum retained submissions, without overwriting earlier records.
pub const CAPACITY: usize = 64;

/// Identity independent of the reusable transmit queue slot and repeated ICMP sequence.
#[derive(Clone, Copy, Debug, PartialEq, Eq, Structural)]
pub struct Tag {
    /// Monotonic identity for this boot.
    pub ordinal: u32,
    /// Index of the record.
    pub slot: usize,
}

impl Tag {
    /// Monotonic identity for this boot.
    pub fn ordinal(self) -> (ordinal: u32)
        ensures
            ordinal == self.ordinal,
    {
        self.ordinal
    }
}

/// Latest boundary actually observed by the recorder.
#[derive(Clone, Copy, Debug, PartialEq, Eq, Structural)]
pub enum Phase {
    /// The station runner received the owned MSDU, before buffer allocation.
    Accepted,
    /// The software queue took ownership of the MPDU.
    Queued,
    /// The background runner removed the MPDU for transmission.
    Picked,
    /// The radio returned a result.
    Finished,
}

impl Phase {
    /// Position of the phase in the life of a submission.
    pub open spec fn rank(&self) -> int {
        match self {
            Phase::Accepted => 0,
            Phase::Queued => 1,
            Phase::Picked => 2,
            Phase::Finished => 3,
        }
    }
}

/// Numeric metadata for one submission; no payload or crypto state is retained.
#[derive(Clone, Copy, Debug, PartialEq, Eq)]
pub struct Entry {
    /// Boot-local submission identity.
    pub tag: Tag,
    /// Application-supplied connection cycle.
    pub cycle: u32,
    /// Owned ICMP echo sequence, 1 through 20.
    pub sequence: u16,
    /// Last observed boundary.
    pub phase: Phase,
    /// Actual result. Success contains the retry count; errors have no count.
    pub completion: Option<Result<u8, TxError>>,
    /// Microseconds since boot at MSDU acceptance.
    pub accepted_us: u64,
    /// Microseconds since boot at software queue insertion.
    pub queued_us: Option<u64>,
    /// Microseconds since boot at queue pickup.
    pub picked_us: Option<u64>,
    /// Microseconds since boot at actual completion.
    pub finished_us: Option<u64>,
}

impl Entry {
    /// The latest time that an event which can still happen must not precede.
    pub open spec fn latest_us(&self) -> u64 {
        match (self.picked_us, self.queued_us) {
            (Some(at), _) => at,
            (None, Some(at)) => at,
            (None, None) => self.accepted_us,
        }
    }

    /// A submission that was just accepted.
    pub open spec fn accepted(tag: Tag, cycle: u32, sequence: u16, at: u64) -> Entry {
        Entry {
            tag,
            cycle,
            sequence,
            phase: Phase::Accepted,
            completion: None,
            accepted_us: at,
            queued_us: None,
            picked_us: None,
            finished_us: None,
        }
    }

    /// The times and the result that are there are those of the phases passed, in order.
    pub open spec fn wf(&self) -> bool {
        &&& self.queued_us is Some == (self.phase.rank() >= 1)
        &&& self.picked_us is Some == (self.phase.rank() >= 2)
        &&& self.finished_us is Some == (self.phase.rank() >= 3)
        &&& self.completion is Some == (self.phase.rank() >= 3)
        &&& self.queued_us matches Some(at) ==> at >= self.accepted_us
        &&& self.picked_us matches Some(at) ==> at >= self.queued_us->Some_0
        &&& self.finished_us matches Some(at) ==> at >= self.picked_us->Some_0
        &&& 1 <= self.sequence <= 20
        &&& self.cycle != 0
    }

    /// Whether `later` is this entry after some more of its life.
    pub open spec fn continues_as(&self, later: Entry) -> bool {
        &&& later.tag == self.tag
        &&& later.cycle == self.cycle
        &&& later.sequence == self.sequence
        &&& later.accepted_us == self.accepted_us
        &&& later.phase.rank() >= self.phase.rank()
        &&& later.phase.rank() == self.phase.rank() ==> later == *self
        &&& self.queued_us is Some ==> later.queued_us == self.queued_us
        &&& self.picked_us is Some ==> later.picked_us == self.picked_us
        &&& self.finished_us is Some ==> later.finished_us == self.finished_us
        &&& self.completion is Some ==> later.completion == self.completion
    }
}

/// Recorder limitations are counted instead of hiding or overwriting evidence.
#[derive(Clone, Copy, Debug, PartialEq, Eq, Structural)]
pub struct Counters {
    /// Owned submissions rejected because the fixed store is full.
    pub capacity_rejections: u32,
    /// Exhausted boot-local identities.
    pub tag_exhaustion: u32,
    /// Invalid, stale or out-of-order lifecycle events.
    pub invalid_events: u32,
    /// Classifier scope changed while a packet was being inspected.
    pub scope_changes: u32,
}

impl Default for Counters {
    fn default() -> (counters: Self)
        ensures
            counters == (Counters {
                capacity_rejections: 0,
                tag_exhaustion: 0,
                invalid_events: 0,
                scope_changes: 0,
            }),
    {
        Counters { capacity_rejections: 0, tag_exhaustion: 0, invalid_events: 0, scope_changes: 0 }
    }
}

/// One more, up to the largest value.
pub open spec fn counted(count: u32) -> u32 {
    if count < u32::MAX {
        (count + 1) as u32
    } else {
        count
    }
}

/// Records submissions in the order of their acceptance.
pub struct Recorder<const N: usize> {
    /// The records; those from `used` on are unused.
    pub entries: [Entry; N],
    /// How many records are in use.
    pub used: usize,
    /// The identity given out last.
    pub last_tag: u32,
    /// What could not be recorded.
    pub counters: Counters,
}

impl<const N: usize> Recorder<N> {
    /// The records in use.
    pub open spec fn records(&self) -> Seq<Entry> {
        self.entries@.subrange(0, self.used as int)
    }

    /// Every record in use is sound and stands at its slot, and identities rise.
    pub open spec fn wf(&self) -> bool {
        &&& self.used <= N
        &&& forall|i: int| 0 <= i < self.used ==> (#[trigger] self.entries@[i]).wf()
        &&& forall|i: int| 0 <= i < self.used ==> (#[trigger] self.entries@[i]).tag.slot == i
        &&& forall|i: int|
            0 <= i < self.used ==> (#[trigger] self.entries@[i]).tag.ordinal <= self.last_tag
        &&& forall|i: int, j: int|
            0 <= i < j < self.used ==> (#[trigger] self.entries@[i]).tag.ordinal < (
            #[trigger] self.entries@[j]).tag.ordinal
    }

    /// Create an empty recorder.
    pub fn new() -> (recorder: Self)
        ensures
            recorder.wf(),
            recorder.used == 0,
            recorder.last_tag == 0,
            recorder.counters == (Counters {
                capacity_rejections: 0,
                tag_exhaustion: 0,
                invalid_events: 0,
                scope_changes: 0,
            }),
    {
        let empty = Entry {
            tag: Tag { ordinal: 0, slot: 0 },
            cycle: 0,
            sequence: 0,
            phase: Phase::Accepted,
            completion: None,
            accepted_us: 0,
            queued_us: None,
            picked_us: None,
            finished_us: None,
        };
        Self { entries: [empty; N], used: 0, last_tag: 0, counters: Counters::default() }
    }

    fn invalid(&mut self)
        ensures
            *final(self) == (Recorder::<N> {
                counters: Counters {
                    invalid_events: counted(old(self).counters.invalid_events),
                    ..old(self).counters
                },
                ..*old(self)
            }),
    {
        self.counters.invalid_events = self.counters.invalid_events.saturating_add(1);
    }

    /// Record the acceptance of a submission.
    pub fn accept(&mut self, cycle: u32, sequence: u16, at: u64) -> (tag: Option<Tag>)
        requires
            old(self).wf(),
        ensures
            final(self).wf(),
            final(self).is_after_accept(*old(self), cycle, sequence, at, tag),
            final(self).retains(*old(self)),
    {
        if cycle == 0 || sequence < 1 || sequence > 20 {
            self.invalid();
            return None;
        }
        if self.used == N {
            self.counters.capacity_rejections = self.counters.capacity_rejections.saturating_add(1);
            return None;
        }
        if self.last_tag == u32::MAX {
            self.counters.tag_exhaustion = self.counters.tag_exhaustion.saturating_add(1);
            return None;
        }
        let next: u32 = self.last_tag + 1;
        let tag = Tag { ordinal: next, slot: self.used };
        self.entries[self.used] = Entry {
            tag,
            cycle,
            sequence,
            phase: Phase::Accepted,
            completion: None,
            accepted_us: at,
            queued_us: None,
            picked_us: None,
            finished_us: None,
        };
        self.used = self.used + 1;
        self.last_tag = next;
        assert(self.records() =~= old(self).records().push(
            Entry::accepted(tag, cycle, sequence, at),
        ));
        assert forall|i: int| 0 <= i < old(self).used implies (
        #[trigger] old(self).entries@[i]).continues_as(self.entries@[i]) by {}
        Some(tag)
    }

    /// What accepting a submission leads to: a new record, or a count of why there is none.
    pub open spec fn is_after_accept(
        &self,
        before: Recorder<N>,
        cycle: u32,
        sequence: u16,
        at: u64,
        tag: Option<Tag>,
    ) -> bool {
        if cycle == 0 || sequence < 1 || sequence > 20 {
            &&& tag is None
            &&& *self == (Recorder::<N> {
                counters: Counters {
                    invalid_events: counted(before.counters.invalid_events),
                    ..before.counters
                },
                ..before
            })
        } else if before.used == N {
            &&& tag is None
            &&& *self == (Recorder::<N> {
                counters: Counters {
                    capacity_rejections: counted(before.counters.capacity_rejections),
                    ..before.counters
                },
                ..before
            })
        } else if before.last_tag == u32::MAX {
            &&& tag is None
            &&& *self == (Recorder::<N> {
                counters: Counters {
                    tag_exhaustion: counted(before.counters.tag_exhaustion),
                    ..before.counters
                },
                ..before
            })
        } else {
            let new = Tag { ordinal: (before.last_tag + 1) as u32, slot: before.used };
            &&& tag == Some(new)
            &&& self.entries@ == before.entries@.update(
                before.used as int,
                Entry::accepted(new, cycle, sequence, at),
            )
            &&& self.records() == before.records().push(Entry::accepted(new, cycle, sequence, at))
            &&& self.used == before.used + 1
            &&& self.last_tag == before.last_tag + 1
            &&& self.counters == before.counters
        }
    }

    /// Whether an event of the submission `tag` fits its record, which is in `phase`.
    pub open spec fn event_fits(&self, tag: Tag, phase: Phase, at: u64) -> bool {
        &&& tag.slot < self.used
        &&& self.entries@[tag.slot as int].tag == tag
        &&& self.entries@[tag.slot as int].phase == phase
        &&& at >= self.entries@[tag.slot as int].latest_us()
    }

    /// What an event leads to: `updated` in place of the record where the event fits, or one more
    /// invalid event.
    pub open spec fn is_after_event(&self, before: Recorder<N>, fits: bool, updated: Entry)
        -> bool {
        &&& self.used == before.used
        &&& self.last_tag == before.last_tag
        &&& if fits {
            &&& self.entries@ == before.entries@.update(updated.tag.slot as int, updated)
            &&& self.counters == before.counters
        } else {
            &&& self.entries@ == before.entries@
            &&& self.counters == (Counters {
                invalid_events: counted(before.counters.invalid_events),
                ..before.counters
            })
        }
    }

    fn index(&mut self, tag: Tag, phase: Phase, at: u64) -> (index: Option<usize>)
        requires
            old(self).used <= N,
        ensures
            index == if old(self).event_fits(tag, phase, at) {
                Some(tag.slot)
            } else {
                None
            },
            index is Some ==> *final(self) == *old(self),
            index is None ==> *final(self) == (Recorder::<N> {
                counters: Counters {
                    invalid_events: counted(old(self).counters.invalid_events),
                    ..old(self).counters
                },
                ..*old(self)
            }),
    {
        if tag.slot < self.used {
            let entry = self.entries[tag.slot];
            let latest: u64 = match entry.picked_us {
                Some(picked) => picked,
                None => match entry.queued_us {
                    Some(queued) => queued,
                    None => entry.accepted_us,
                },
            };
            if entry.tag == tag && entry.phase == phase && at >= latest {
                return Some(tag.slot);
            }
        }
        self.invalid();
        None
    }

    /// Record that the software queue took a submission.
    pub fn queued(&mut self, tag: Tag, at: u64)
        requires
            old(self).wf(),
        ensures
            final(self).wf(),
            final(self).is_after_queued(*old(self), tag, at),
            final(self).retains(*old(self)),
    {
        if let Some(i) = self.index(tag, Phase::Accepted, at) {
            let entry = self.entries[i];
            self.entries[i] = Entry { queued_us: Some(at), phase: Phase::Queued, ..entry };
        }
    }

    /// What [Recorder::queued] leads to.
    pub open spec fn is_after_queued(&self, before: Recorder<N>, tag: Tag, at: u64) -> bool {
        self.is_after_event(
            before,
            before.event_fits(tag, Phase::Accepted, at),
            Entry {
                queued_us: Some(at),
                phase: Phase::Queued,
                ..before.entries@[tag.slot as int]
            },
        )
    }

    /// Record that the runner took a submission off the queue.
    pub fn picked(&mut self, tag: Tag, at: u64)
        requires
            old(self).wf(),
        ensures
            final(self).wf(),
            final(self).is_after_picked(*old(self), tag, at),
            final(self).retains(*old(self)),
    {
        if let Some(i) = self.index(tag, Phase::Queued, at) {
            let entry = self.entries[i];
            self.entries[i] = Entry { picked_us: Some(at), phase: Phase::Picked, ..entry };
        }
    }

    /// What [Recorder::picked] leads to.
    pub open spec fn is_after_picked(&self, before: Recorder<N>, tag: Tag, at: u64) -> bool {
        self.is_after_event(
            before,
            before.event_fits(tag, Phase::Queued, at),
            Entry {
                picked_us: Some(at),
                phase: Phase::Picked,
                ..before.entries@[tag.slot as int]
            },
        )
    }

    /// Record the result of a submission.
    pub fn finished(&mut self, tag: Tag, at: u64, result: Result<u8, TxError>)
        requires
            old(self).wf(),
        ensures
            final(self).wf(),
            final(self).is_after_finished(*old(self), tag, at, result),
            final(self).retains(*old(self)),
    {
        if let Some(i) = self.index(tag, Phase::Picked, at) {
            let entry = self.entries[i];
            self.entries[i] = Entry {
                finished_us: Some(at),
                completion: Some(result),
                phase: Phase::Finished,
                ..entry
            };
        }
    }

    /// What [Recorder::finished] leads to.
    pub open spec fn is_after_finished(
        &self,
        before: Recorder<N>,
        tag: Tag,
        at: u64,
        result: Result<u8, TxError>,
    ) -> bool {
        self.is_after_event(
            before,
            before.event_fits(tag, Phase::Picked, at),
            Entry {
                finished_us: Some(at),
                completion: Some(result),
                phase: Phase::Finished,
                ..before.entries@[tag.slot as int]
            },
        )
    }

    /// Whether all records of `before` are kept, each as it was or after more of its life.
    pub open spec fn retains(&self, before: Recorder<N>) -> bool {
        &&& self.used >= before.used
        &&& forall|i: int|
            0 <= i < before.used ==> (#[trigger] before.entries@[i]).continues_as(self.entries@[i])
    }
}

/// Whatever is retained over one stretch of time and over the next is retained over both.
pub proof fn retention_is_transitive<const N: usize>(
    first: Recorder<N>,
    second: Recorder<N>,
    third: Recorder<N>,
)
    requires
        first.wf(),
        second.wf(),
        third.wf(),
        second.retains(first),
        third.retains(second),
    ensures
        third.retains(first),
{
    assert forall|i: int| 0 <= i < first.used implies (
    #[trigger] first.entries@[i]).continues_as(third.entries@[i]) by {
        assert(first.entries@[i].continues_as(second.entries@[i]));
        assert(second.entries@[i].continues_as(third.entries@[i]));
        assert(first.entries@[i].wf());
    }
}

/// No two records have the same identity.
pub proof fn tags_are_unique<const N: usize>(recorder: Recorder<N>, i: int, j: int)
    requires
        recorder.wf(),
        0 <= i < recorder.used,
        0 <= j < recorder.used,
        i != j,
    ensures
        recorder.entries@[i].tag != recorder.entries@[j].tag,
        recorder.entries@[i].tag.ordinal != recorder.entries@[j].tag.ordinal,
{
    if i < j {
        assert(recorder.entries@[i].tag.ordinal < recorder.entries@[j].tag.ordinal);
    } else {
        assert(recorder.entries@[j].tag.ordinal < recorder.entries@[i].tag.ordinal);
    }
}

/// What the classifier looks for.
#[derive(Clone, Copy, Debug)]
pub struct Scope {
    /// The connection cycle.
    pub cycle: u32,
    /// Address of the gateway.
    pub gateway: [u8; 4],
    /// Identity of the scope.
    pub generation: u64,
}

impl Scope {
    /// Compare two scopes.
    pub fn equals(&self, other: &Scope) -> (equal: bool)
        ensures
            equal == (*self == *other),
    {
        let equal = self.cycle == other.cycle && bytes_equal(&self.gateway, &other.gateway)
            && self.generation == other.generation;
        proof {
            if equal {
                assert(self.gateway =~= other.gateway);
            }
        }
        equal
    }
}

/// State of the diagnostics.
pub struct State {
    /// The records.
    pub recorder: Recorder<CAPACITY>,
    /// The active scope.
    pub scope: Option<Scope>,
    /// The scope identity given out last.
    pub generation: u64,
}

impl State {
    /// Start without records and scope.
    pub fn new() -> (state: Self)
        ensures
            state.recorder.wf(),
            state.recorder.used == 0,
            state.recorder.last_tag == 0,
            state.recorder.counters == (Counters {
                capacity_rejections: 0,
                tag_exhaustion: 0,
                invalid_events: 0,
                scope_changes: 0,
            }),
            state.scope is None,
            state.generation == 0,
    {
        Self { recorder: Recorder::new(), scope: None, generation: 0 }
    }
}

/// Enable classification for a gateway batch, without clearing previous records.
///
/// Returns false for invalid cycles or exhausted scope identities.
pub fn arm(state: &mut State, cycle: u32, gateway: [u8; 4]) -> (armed: bool)
    ensures
        armed == (cycle != 0 && old(state).generation < u64::MAX),
        armed ==> *final(state) == (State {
            generation: (old(state).generation + 1) as u64,
            scope: Some(
                Scope { cycle, gateway, generation: (old(state).generation + 1) as u64 },
            ),
            ..*old(state)
        }),
        !armed ==> *final(state) == (State {
            scope: None,
            recorder: Recorder {
                counters: Counters {
                    invalid_events: counted(old(state).recorder.counters.invalid_events),
                    ..old(state).recorder.counters
                },
                ..old(state).recorder
            },
            ..*old(state)
        }),
{
    if cycle == 0 || state.generation == u64::MAX {
        state.recorder.invalid();
        state.scope = None;
        return false;
    }
    state.generation = state.generation + 1;
    state.scope = Some(Scope { cycle, gateway, generation: state.generation });
    true
}

/// Stop accepting new submissions; existing queue records can still complete.
pub fn disarm(state: &mut State)
    ensures
        *final(state) == (State { scope: None, ..*old(state) }),
{
    state.scope = None;
}

/// Record a submission that was found in `scope`, unless the scope has changed meanwhile.
pub fn accept_classified(state: &mut State, scope: Scope, sequence: u16, at: u64) -> (tag: Option<
    Tag,
>)
    requires
        old(state).recorder.wf(),
    ensures
        final(state).recorder.wf(),
        final(state).recorder.retains(old(state).recorder),
        final(state).scope == old(state).scope,
        final(state).generation == old(state).generation,
        old(state).scope == Some(scope) ==> final(state).recorder.is_after_accept(
            old(state).recorder,
            scope.cycle,
            sequence,
            at,
            tag,
        ),
        old(state).scope != Some(scope) ==> {
            &&& tag is None
            &&& final(state).recorder == (Recorder::<CAPACITY> {
                counters: Counters {
                    scope_changes: counted(old(state).recorder.counters.scope_changes),
                    ..old(state).recorder.counters
                },
                ..old(state).recorder
            })
        },
{
    let unchanged = match &state.scope {
        Some(current) => current.equals(&scope),
        None => false,
    };
    if !unchanged {
        state.recorder.counters.scope_changes =
        state.recorder.counters.scope_changes.saturating_add(1);
        return None;
    }
    state.recorder.accept(scope.cycle, sequence, at)
}

/// Classify an owned Ethernet MSDU and record its acceptance at the given time.
///
/// This classifier does not validate IP/ICMP checksums or claim wire validity.
pub fn accept_msdu_at(state: &mut State, ethernet: &[u8], at: u64) -> (tag: Option<Tag>)
    requires
        old(state).recorder.wf(),
    ensures
        final(state).recorder.wf(),
        final(state).is_after_accept_msdu(*old(state), ethernet@, at, tag),
{
    let scope = match state.scope {
        Some(scope) => scope,
        None => {
            return None;
        },
    };
    match gateway_echo_sequence(ethernet, scope.gateway) {
        Some(sequence) => accept_classified(state, scope, sequence, at),
        None => None,
    }
}

impl State {
    /// What classifying an MSDU leads to.
    pub open spec fn is_after_accept_msdu(
        &self,
        before: State,
        ethernet: Seq<u8>,
        at: u64,
        tag: Option<Tag>,
    ) -> bool {
        match before.scope {
            Some(scope) if echo_sequence(ethernet, scope.gateway@) is Some => {
                &&& self.scope == before.scope
                &&& self.generation == before.generation
                &&& self.recorder.retains(before.recorder)
                &&& self.recorder.is_after_accept(
                    before.recorder,
                    scope.cycle,
                    echo_sequence(ethernet, scope.gateway@)->Some_0 as u16,
                    at,
                    tag,
                )
            },
            _ => tag is None && *self == before,
        }
    }
}

/// Classify an owned Ethernet MSDU and record its acceptance before MAC wrapping.
pub fn accept_msdu(state: &mut State, ethernet: &[u8]) -> (tag: Option<Tag>)
    requires
        old(state).recorder.wf(),
    ensures
        final(state).recorder.wf(),
        exists|at: u64| final(state).is_after_accept_msdu(*old(state), ethernet@, at, tag),
{
    let at: u64 = now_micros();
    accept_msdu_at(state, ethernet, at)
}

/// Record that the software queue took a submission just now.
pub fn queued(state: &mut State, tag: Tag)
    requires
        old(state).recorder.wf(),
    ensures
        final(state).recorder.wf(),
        final(state).recorder.retains(old(state).recorder),
        final(state).scope == old(state).scope,
        final(state).generation == old(state).generation,
        exists|at: u64| final(state).recorder.is_after_queued(old(state).recorder, tag, at),
{
    let at: u64 = now_micros();
    state.recorder.queued(tag, at);
}

/// Record that the runner took a submission off the queue just now.
pub fn picked(state: &mut State, tag: Tag)
    requires
        old(state).recorder.wf(),
    ensures
        final(state).recorder.wf(),
        final(state).recorder.retains(old(state).recorder),
        final(state).scope == old(state).scope,
        final(state).generation == old(state).generation,
        exists|at: u64| final(state).recorder.is_after_picked(old(state).recorder, tag, at),
{
    let at: u64 = now_micros();
    state.recorder.picked(tag, at);
}

/// Record the result of a submission just now.
pub fn finished(state: &mut State, tag: Tag, result: Result<u8, TxError>)
    requires
        old(state).recorder.wf(),
    ensures
        final(state).recorder.wf(),
        final(state).recorder.retains(old(state).recorder),
        final(state).scope == old(state).scope,
        final(state).generation == old(state).generation,
        exists|at: u64|
            final(state).recorder.is_after_finished(old(state).recorder, tag, at, result),
{
    let at: u64 = now_micros();
    state.recorder.finished(tag, at, result);
}

/// Number of retained submissions. Records are never cleared during this boot.
pub fn len(state: &State) -> (len: usize)
    ensures
        len == state.recorder.used,
{
    state.recorder.used
}

/// Copy one entry.
pub fn entry(state: &State, index: usize) -> (entry: Option<Entry>)
    requires
        state.recorder.used <= CAPACITY,
    ensures
        entry == if index < state.recorder.used {
            Some(state.recorder.entries@[index as int])
        } else {
            None
        },
{
    if index < state.recorder.used {
        Some(state.recorder.entries[index])
    } else {
        None
    }
}

/// Copy all limitation counters.
pub fn counters(state: &State) -> (counters: Counters)
    ensures
        counters == state.recorder.counters,
{
    state.recorder.counters
}

/// Length of the IPv4 header at the front of `ip`.
pub open spec fn ip_header_length(ip: Seq<u8>) -> int {
    (ip[0] % 16) * 4
}

/// Whether `ip` starts with an unfragmented IPv4 packet to `gateway` that carries 520 bytes of
/// ICMP behind a header of at least twenty bytes.
pub open spec fn is_gateway_packet(ip: Seq<u8>, gateway: Seq<u8>) -> bool {
    &&& ip.len() >= 20
    &&& ip[0] / 16 == 4
    &&& ip_header_length(ip) >= 20
    &&& be_value(ip.subrange(2, 4)) == ip_header_length(ip) + 520
    &&& ip_header_length(ip) + 520 <= ip.len()
    &&& ip[9] == 1
    &&& ip.subrange(16, 20) == gateway
    &&& be_value(ip.subrange(6, 8)) % 0x4000 == 0
}

/// Whether `echo` is an echo request of ours: the fixed identifier, a sequence number from 1 to
/// 20 and the fixed payload.
pub open spec fn is_owned_echo(echo: Seq<u8>) -> bool {
    &&& echo[0] == 8
    &&& echo[1] == 0
    &&& echo[4] == 0x53
    &&& echo[5] == 0x53
    &&& 1 <= be_value(echo.subrange(6, 8)) <= 20
    &&& forall|i: int| 8 <= i < echo.len() ==> echo[i] == 0x5a
}

/// The sequence number of an Ethernet frame that carries an owned echo request to `gateway`.
pub open spec fn echo_sequence(ethernet: Seq<u8>, gateway: Seq<u8>) -> Option<nat> {
    if ethernet.len() >= 14 && ethernet[12] == 0x08 && ethernet[13] == 0x00 {
        let ip = ethernet.subrange(14, ethernet.len() as int);
        let echo = ip.subrange(ip_header_length(ip), ip_header_length(ip) + 520);
        if is_gateway_packet(ip, gateway) && is_owned_echo(echo) {
            Some(be_value(echo.subrange(6, 8)))
        } else {
            None
        }
    } else {
        None
    }
}

/// Get the sequence number of an Ethernet frame that carries an owned echo request.
pub fn gateway_echo_sequence(ethernet: &[u8], gateway: [u8; 4]) -> (sequence: Option<u16>)
    ensures
        sequence is Some == echo_sequence(ethernet@, gateway@) is Some,
        sequence matches Some(sequence) ==> sequence as nat == echo_sequence(
            ethernet@,
            gateway@,
        )->Some_0,
{
    let length: usize = ethernet.len();
    if length < 14 || ethernet[12] != 0x08 || ethernet[13] != 0x00 {
        return None;
    }
    let ip = &ethernet[14..length];
    if ip.len() < 20 {
        return None;
    }
    let version_ihl: u8 = ip[0];
    let header: usize = ((version_ihl % 16) as usize) * 4;
    if version_ihl / 16 != 4 || header < 20 {
        return None;
    }
    let total: usize = read_be16(ip, 2) as usize;
    if total != header + 520 || total > ip.len() {
        return None;
    }
    if ip[9] != 1 || !bytes_equal(&ip[16..20], &gateway) {
        return None;
    }
    let fragment: u16 = read_be16(ip, 6);
    if fragment % 0x4000 != 0 {
        return None;
    }
    let echo = &ip[header..total];
    if echo[0] != 8 || echo[1] != 0 || echo[4] != 0x53 || echo[5] != 0x53 {
        return None;
    }
    let sequence: u16 = read_be16(echo, 6);
    if sequence < 1 || sequence > 20 {
        return None;
    }
    let ghost packet = ethernet@.subrange(14, ethernet@.len() as int);
    let mut i: usize = 8;
    while i < echo.len()
        invariant
            packet == ethernet@.subrange(14, ethernet@.len() as int),
            echo@ == packet.subrange(ip_header_length(packet), ip_header_length(packet) + 520),
            8 <= i <= echo@.len(),
            forall|j: int| 8 <= j < i ==> echo@[j] == 0x5a,
        decreases echo@.len() - i,
    {
        if echo[i] != 0x5a {
            assert(echo@[i as int] != 0x5a);
            return None;
        }
        i = i + 1;
    }
    Some(sequence)
}

/// An echo request of ours to the gateway is recognized by its bytes: an unfragmented IPv4 packet of
/// 540 bytes with a plain header, our identifier, a sequence number from 1 to 20, and our payload.
pub proof fn owned_echoes_are_recognized(ethernet: Seq<u8>, gateway: Seq<u8>)
    requires
        ethernet.len() >= 554,
        ethernet[12] == 0x08,
        ethernet[13] == 0x00,
        ethernet[14] == 0x45,
        ethernet[16] == 0x02,
        ethernet[17] == 0x1c,
        ethernet[20] == 0x00 || ethernet[20] == 0x40,
        ethernet[21] == 0x00,
        ethernet[23] == 1,
        ethernet.subrange(30, 34) == gateway,
        ethernet[34] == 8,
        ethernet[35] == 0,
        ethernet[38] == 0x53,
        ethernet[39] == 0x53,
        ethernet[40] == 0,
        1 <= ethernet[41] <= 20,
        forall|i: int| 42 <= i < 554 ==> ethernet[i] == 0x5a,
    ensures
        echo_sequence(ethernet, gateway) == Some(ethernet[41] as nat),
{
    let ip = ethernet.subrange(14, ethernet.len() as int);
    assert(ip[0] == 0x45);
    assert(ip_header_length(ip) == 20);
    let echo = ip.subrange(20, 540);
    lemma_be_value_pair(ip.subrange(2, 4));
    lemma_be_value_pair(ip.subrange(6, 8));
    lemma_be_value_pair(echo.subrange(6, 8));
    assert(ip.subrange(16, 20) =~= ethernet.subrange(30, 34));
    assert forall|i: int| 8 <= i < echo.len() implies echo[i] == 0x5a by {
        assert(echo[i] == ethernet[34 + i]);
    }
}

/// Nothing else is taken for one: what is recognized goes to the gateway, is an echo request with our
/// identifier, and has a sequence number from 1 to 20.
pub proof fn only_owned_echoes_are_recognized(ethernet: Seq<u8>, gateway: Seq<u8>)
    requires
        echo_sequence(ethernet, gateway) is Some,
    ensures
        ethernet.len() >= 554,
        ethernet[12] == 0x08 && ethernet[13] == 0x00,
        ethernet[23] == 1,
        ethernet.subrange(30, 34) == gateway,
        1 <= echo_sequence(ethernet, gateway)->Some_0 <= 20,
        ({
            let echo = 14 + 4 * (ethernet[14] % 16);
            &&& ethernet[echo] == 8
            &&& ethernet[echo + 1] == 0
            &&& ethernet[echo + 4] == 0x53
            &&& ethernet[echo + 5] == 0x53
        }),
{
    let ip = ethernet.subrange(14, ethernet.len() as int);
    let header = ip_header_length(ip);
    let echo = ip.subrange(header, header + 520);
    assert(ip.subrange(16, 20) =~= ethernet.subrange(30, 34));
    assert(ip[9] == ethernet[23]);
    assert(echo[0] == ethernet[14 + header] && echo[1] == ethernet[15 + header]);
    assert(echo[4] == ethernet[18 + header] && echo[5] == ethernet[19 + header]);
}

/// A submission is recorded from its acceptance to its result, with the time of every boundary, if the
/// times do not go back.
pub proof fn lives_are_recorded<const N: usize>(
    before: Recorder<N>,
    accepted: Recorder<N>,
    queued: Recorder<N>,
    picked: Recorder<N>,
    finished: Recorder<N>,
    cycle: u32,
    sequence: u16,
    tag: Option<Tag>,
    times: (u64, u64, u64, u64),
    result: Result<u8, TxError>,
)
    requires
        before.wf(),
        before.used < N,
        before.last_tag < u32::MAX,
        cycle != 0,
        1 <= sequence <= 20,
        times.0 <= times.1 <= times.2 <= times.3,
        accepted.is_after_accept(before, cycle, sequence, times.0, tag),
        queued.is_after_queued(accepted, tag->Some_0, times.1),
        picked.is_after_picked(queued, tag->Some_0, times.2),
        finished.is_after_finished(picked, tag->Some_0, times.3, result),
    ensures
        tag matches Some(tag) && tag.ordinal == before.last_tag + 1 && tag.slot == before.used,
        finished.used == before.used + 1,
        finished.counters == before.counters,
        finished.entries@[before.used as int] == (Entry {
            tag: tag->Some_0,
            cycle,
            sequence,
            phase: Phase::Finished,
            completion: Some(result),
            accepted_us: times.0,
            queued_us: Some(times.1),
            picked_us: Some(times.2),
            finished_us: Some(times.3),
        }),
        forall|i: int|
            0 <= i < before.used ==> #[trigger] finished.entries@[i] == before.entries@[i],
{
    let slot = before.used as int;
    assert(accepted.entries@[slot].phase == Phase::Accepted);
    assert(queued.entries@[slot].phase == Phase::Queued);
    assert(picked.entries@[slot].phase == Phase::Picked);
}

/// What does not fit is counted, and changes no record: a submission without room, and an event that
/// is out of order.
pub proof fn limits_are_counted<const N: usize>(
    before: Recorder<N>,
    after: Recorder<N>,
    cycle: u32,
    sequence: u16,
    at: u64,
    tag: Option<Tag>,
)
    requires
        before.wf(),
        after.is_after_accept(before, cycle, sequence, at, tag),
        tag is None,
    ensures
        after.entries@ == before.entries@,
        after.used == before.used,
        cycle == 0 || sequence == 0 || sequence > 20 || before.used == N || before.last_tag
            == u32::MAX,
        after.counters.invalid_events + after.counters.capacity_rejections
            + after.counters.tag_exhaustion >= before.counters.invalid_events
            + before.counters.capacity_rejections + before.counters.tag_exhaustion,
        before.counters.invalid_events < u32::MAX && (cycle == 0 || sequence == 0 || sequence > 20)
            ==> after.counters.invalid_events == before.counters.invalid_events + 1,
        before.counters.capacity_rejections < u32::MAX && cycle != 0 && 1 <= sequence <= 20
            && before.used == N ==> after.counters.capacity_rejections
            == before.counters.capacity_rejections + 1,
{
}

} // verus!

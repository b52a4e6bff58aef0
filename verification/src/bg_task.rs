//! The background task of the stack.
//!
//! The job of the background runner is to route the received frames to the appropriate interface.
use vstd::prelude::*;

use crate::queue::HandleQueue;
use crate::radio::{ReceivedFrame, INTERFACE_COUNT};
use crate::rx_arc_pool::{RxArcBufferInner, RxArcPool};

verus! {

/// The receive queue of an interface.
pub struct RxQueue {
    /// Handles of the frames that were received.
    pub queue: HandleQueue,
    /// Whether somebody receives from the queue.
    pub active: bool,
}

impl RxQueue {
    /// The queue is well formed.
    pub open spec fn wf(&self) -> bool {
        self.queue.wf()
    }

    /// Whether the queue takes another frame.
    pub open spec fn takes(&self) -> bool {
        self.active && self.queue@.len() < self.queue.spec_capacity()
    }

    /// Create an empty queue that is not active.
    pub fn new(capacity: usize) -> (queue: Self)
        ensures
            queue.wf(),
            queue.queue@.len() == 0,
            queue.queue.spec_capacity() == capacity,
            !queue.active,
    {
        Self { queue: HandleQueue::new(capacity), active: false }
    }

    /// Whether this is `before` with `handle` put behind all others.
    pub open spec fn is_after_send(&self, before: RxQueue, handle: usize) -> bool {
        &&& self.active == before.active
        &&& self.queue.spec_capacity() == before.queue.spec_capacity()
        &&& self.queue@ == before.queue@.push(handle)
    }

    /// Whether this holds what `before` holds.
    pub open spec fn is_same(&self, before: RxQueue) -> bool {
        &&& self.active == before.active
        &&& self.queue.spec_capacity() == before.queue.spec_capacity()
        &&& self.queue@ == before.queue@
    }
}

/// The interface that a frame is addressed to, if it is exactly one.
pub open spec fn sole_interface(interfaces: Seq<bool>) -> Option<int> {
    if exists|i: int|
        0 <= i < INTERFACE_COUNT && interfaces[i] && forall|j: int|
            0 <= j < INTERFACE_COUNT && j != i ==> !#[trigger] interfaces[j] {
        Some(
            choose|i: int|
                0 <= i < INTERFACE_COUNT && interfaces[i] && forall|j: int|
                    0 <= j < INTERFACE_COUNT && j != i ==> !#[trigger] interfaces[j],
        )
    } else {
        None
    }
}

/// What a received frame leads to: it is queued for its interface, if that takes it.
pub open spec fn packet_processed(
    before: Seq<RxQueue>,
    after: Seq<RxQueue>,
    interfaces: Seq<bool>,
    handle: usize,
    queued: bool,
) -> bool {
    &&& queued == (sole_interface(interfaces) matches Some(i) && before[i].takes())
    &&& forall|i: int|
        0 <= i < INTERFACE_COUNT ==> if queued && Some(i) == sole_interface(interfaces) {
            (#[trigger] after[i]).is_after_send(before[i], handle)
        } else {
            after[i].is_same(before[i])
        }
}

/// Put a received frame into the queue of the interface that it is addressed to.
///
/// Frames that are addressed to several interfaces or to none are dropped, and so is one whose
/// queue is full or not active. Returns whether the frame was queued.
pub fn process_packet(queues: &mut [RxQueue; 4], interfaces: [bool; 4], handle: usize) -> (queued:
    bool)
    requires
        forall|i: int| 0 <= i < INTERFACE_COUNT ==> (#[trigger] old(queues)@[i]).wf(),
    ensures
        forall|i: int| 0 <= i < INTERFACE_COUNT ==> (#[trigger] final(queues)@[i]).wf(),
        packet_processed(old(queues)@, final(queues)@, interfaces@, handle, queued),
{
    let mut found: Option<usize> = None;
    let mut i: usize = 0;
    while i < INTERFACE_COUNT
        invariant
            i <= INTERFACE_COUNT,
            *queues == *old(queues),
            forall|j: int| 0 <= j < INTERFACE_COUNT ==> (#[trigger] queues@[j]).wf(),
            found matches Some(k) ==> k < i && interfaces@[k as int] && forall|j: int|
                0 <= j < i && j != k ==> !interfaces@[j],
            found is None ==> forall|j: int| 0 <= j < i ==> !interfaces@[j],
        decreases INTERFACE_COUNT - i,
    {
        if interfaces[i] {
            if found.is_some() {
                proof {
                    let first = found->Some_0 as int;
                    assert(interfaces@[first] && interfaces@[i as int] && first != i);
                    assert(sole_interface(interfaces@) is None);
                }
                return false;
            }
            found = Some(i);
        }
        i = i + 1;
    }
    match found {
        Some(interface) => {
            proof {
                assert(interfaces@[interface as int]);
                assert(sole_interface(interfaces@) == Some(interface as int));
            }
            if queues[interface].active {
                queues[interface].queue.try_send(handle)
            } else {
                false
            }
        },
        None => false,
    }
}

/// How many of the first `count` interfaces take a frame that is addressed to `interfaces`.
pub open spec fn takers(queues: Seq<RxQueue>, interfaces: Seq<bool>, count: int) -> int
    decreases count,
{
    if count <= 0 {
        0
    } else {
        takers(queues, interfaces, count - 1) + if interfaces[count - 1] && queues[count
            - 1].takes() {
            1int
        } else {
            0
        }
    }
}

/// What a frame that is shared leads to: it stands in the first free place of the pool, with a handle
/// in the queue of every interface that takes it.
pub open spec fn packet_shared(
    before: (Seq<RxQueue>, Seq<Option<RxArcBufferInner>>),
    after: (Seq<RxQueue>, Seq<Option<RxArcBufferInner>>),
    places: int,
    frame: ReceivedFrame,
    kept: bool,
) -> bool {
    let count = takers(before.0, frame.interfaces@, INTERFACE_COUNT as int);
    &&& kept == ((exists|i: int| 0 <= i < places && (#[trigger] before.1[i]) is None) && count > 0)
    &&& !kept ==> {
        &&& after.1 == before.1
        &&& forall|i: int|
            0 <= i < INTERFACE_COUNT ==> (#[trigger] after.0[i]).is_same(before.0[i])
    }
    &&& kept ==> exists|place: int|
        {
            &&& 0 <= place < places
            &&& (#[trigger] before.1[place]) is None
            &&& forall|i: int| 0 <= i < place ==> (#[trigger] before.1[i]) is Some
            &&& after.1 == before.1.update(
                place,
                Some(RxArcBufferInner { frame, refs: (count - 1) as usize }),
            )
            &&& forall|i: int|
                0 <= i < INTERFACE_COUNT ==> if frame.interfaces@[i] && before.0[i].takes() {
                    (#[trigger] after.0[i]).is_after_send(before.0[i], place as usize)
                } else {
                    after.0[i].is_same(before.0[i])
                }
        }
}

/// Put a received frame into the queues of all interfaces that it is addressed to.
///
/// The frame goes into the pool, with one handle for every queue that takes it. Where no queue
/// takes it, or no place in the pool is free, the frame is lost. Returns whether it was kept.
pub fn process_packet_shared<const N: usize>(
    queues: &mut [RxQueue; 4],
    pool: &mut RxArcPool<N>,
    frame: ReceivedFrame,
) -> (kept: bool)
    requires
        forall|i: int| 0 <= i < INTERFACE_COUNT ==> (#[trigger] old(queues)@[i]).wf(),
        old(pool).wf(),
    ensures
        forall|i: int| 0 <= i < INTERFACE_COUNT ==> (#[trigger] final(queues)@[i]).wf(),
        final(pool).wf(),
        packet_shared(
            (old(queues)@, old(pool).state@),
            (final(queues)@, final(pool).state@),
            N as int,
            frame,
            kept,
        ),
{
    let interfaces: [bool; 4] = frame.interfaces;
    let buffer = match pool.try_alloc(frame) {
        Some(buffer) => buffer,
        None => {
            return false;
        },
    };
    let index: usize = buffer.index;
    let mut i: usize = 0;
    while i < INTERFACE_COUNT
        invariant
            i <= INTERFACE_COUNT,
            interfaces == frame.interfaces,
            buffer.index == index,
            index < N,
            pool.wf(),
            old(pool).wf(),
            pool.state@.len() == old(pool).state@.len(),
            forall|j: int| 0 <= j < INTERFACE_COUNT ==> (#[trigger] old(queues)@[j]).wf(),
            forall|j: int| 0 <= j < INTERFACE_COUNT ==> (#[trigger] queues@[j]).wf(),
            forall|j: int|
                0 <= j < INTERFACE_COUNT ==> if j < i && interfaces@[j] && old(
                    queues,
                )@[j].takes() {
                    (#[trigger] queues@[j]).is_after_send(old(queues)@[j], index)
                } else {
                    queues@[j].is_same(old(queues)@[j])
                },
            pool.state@[index as int] is Some,
            pool.state@[index as int]->Some_0.frame == frame,
            pool.handles(index as int) == 1 + takers(old(queues)@, interfaces@, i as int),
            0 <= takers(old(queues)@, interfaces@, i as int) <= i,
            forall|j: int|
                0 <= j < N && j != index ==> #[trigger] pool.state@[j] == old(pool).state@[j],
        decreases INTERFACE_COUNT - i,
    {
        proof {
            assert(queues@[i as int].is_same(old(queues)@[i as int]));
        }
        if interfaces[i] && queues[i].active {
            let copy = pool.clone_buffer(&buffer);
            let handle: usize = copy.index;
            if !queues[i].queue.try_send(handle) {
                let _ = pool.release(copy);
            }
        }
        i = i + 1;
        proof {
            assert(takers(old(queues)@, interfaces@, i as int) == takers(
                old(queues)@,
                interfaces@,
                i - 1,
            ) + if interfaces@[i - 1] && old(queues)@[i - 1].takes() {
                1int
            } else {
                0
            });
        }
    }
    let freed = pool.release(buffer);
    proof {
        let place = index as int;
        assert(old(pool).state@[place] is None);
        if freed is Some {
            assert(pool.state@ =~= old(pool).state@);
            lemma_nobody_takes(old(queues)@, interfaces@, 4);
        } else {
            assert(pool.state@ =~= old(pool).state@.update(place, pool.state@[place]));
        }
    }
    freed.is_none()
}

/// Where no interface takes a frame, none of them does.
proof fn lemma_nobody_takes(queues: Seq<RxQueue>, interfaces: Seq<bool>, count: int)
    requires
        takers(queues, interfaces, count) == 0,
    ensures
        forall|i: int| 0 <= i < count ==> !(interfaces[i] && (#[trigger] queues[i]).takes()),
    decreases count,
{
    if count > 0 {
        lemma_takers_bounded(queues, interfaces, count - 1);
        lemma_nobody_takes(queues, interfaces, count - 1);
    }
}

/// There are never fewer takers than none.
proof fn lemma_takers_bounded(queues: Seq<RxQueue>, interfaces: Seq<bool>, count: int)
    ensures
        takers(queues, interfaces, count) >= 0,
    decreases count,
{
    if count > 0 {
        lemma_takers_bounded(queues, interfaces, count - 1);
    }
}

/// An endpoint to a receive queue.
///
/// As long as there is one, the queue is active.
#[derive(Debug)]
pub struct RxEndpoint {
    /// The interface whose queue this is.
    pub interface: usize,
}

impl RxEndpoint {
    /// Open the queue of an interface.
    pub fn new(queues: &mut [RxQueue; 4], interface: usize) -> (endpoint: Self)
        requires
            interface < INTERFACE_COUNT,
        ensures
            endpoint.interface == interface,
            final(queues)@ == old(queues)@.update(
                interface as int,
                RxQueue { active: true, ..old(queues)@[interface as int] },
            ),
    {
        queues[interface].active = true;
        assert(queues@ =~= old(queues)@.update(
            interface as int,
            RxQueue { active: true, ..old(queues)@[interface as int] },
        ));
        Self { interface }
    }

    /// Receive a frame: the one that was queued first.
    pub fn receive(&mut self, queues: &mut [RxQueue; 4]) -> (handle: Option<usize>)
        requires
            old(self).interface < INTERFACE_COUNT,
            old(queues)@[old(self).interface as int].wf(),
        ensures
            *final(self) == *old(self),
            handle is Some == (old(queues)@[old(self).interface as int].queue@.len() > 0),
            handle matches Some(handle) ==> {
                let before = old(queues)@[old(self).interface as int].queue;
                &&& handle == before@.first()
                &&& final(queues)@[old(self).interface as int].queue@ == before@.drop_first()
            },
            handle is None ==> final(queues)@[old(self).interface as int].queue@ == old(
                queues,
            )@[old(self).interface as int].queue@,
            final(queues)@[old(self).interface as int].wf(),
            final(queues)@[old(self).interface as int].active == old(
                queues,
            )@[old(self).interface as int].active,
            forall|i: int|
                0 <= i < INTERFACE_COUNT && i != old(self).interface
                    ==> #[trigger] final(queues)@[i] == old(queues)@[i],
    {
        queues[self.interface].queue.try_receive()
    }

    /// Close the queue.
    pub fn close(self, queues: &mut [RxQueue; 4])
        requires
            self.interface < INTERFACE_COUNT,
        ensures
            final(queues)@ == old(queues)@.update(
                self.interface as int,
                RxQueue { active: false, ..old(queues)@[self.interface as int] },
            ),
    {
        queues[self.interface].active = false;
        assert(queues@ =~= old(queues)@.update(
            self.interface as int,
            RxQueue { active: false, ..old(queues)@[self.interface as int] },
        ));
    }
}

/// A frame for one interface goes to that interface, if its queue is active and has room. One for
/// several interfaces or for none has no interface of its own.
pub proof fn frames_go_to_their_interface(interfaces: Seq<bool>, interface: int)
    requires
        interfaces.len() == 4,
        0 <= interface < 4,
    ensures
        interfaces[interface] && (forall|i: int|
            0 <= i < 4 && i != interface ==> !#[trigger] interfaces[i]) ==> sole_interface(
            interfaces,
        ) == Some(interface),
        !interfaces[interface] ==> sole_interface(interfaces) != Some(interface),
        (exists|i: int, j: int|
            0 <= i < j < 4 && #[trigger] interfaces[i] && #[trigger] interfaces[j])
            ==> sole_interface(interfaces) is None,
{
    if exists|i: int, j: int|
        0 <= i < j < 4 && #[trigger] interfaces[i] && #[trigger] interfaces[j] {
        let (i, j) = choose|i: int, j: int|
            0 <= i < j < 4 && #[trigger] interfaces[i] && #[trigger] interfaces[j];
        if sole_interface(interfaces) is Some {
            let k = sole_interface(interfaces)->Some_0;
            assert(k == i || !interfaces[i]);
            assert(k == j || !interfaces[j]);
        }
    }
    if interfaces[interface] && (forall|i: int|
        0 <= i < 4 && i != interface ==> !#[trigger] interfaces[i]) {
        let k = sole_interface(interfaces)->Some_0;
        assert(k == interface || !interfaces[k]);
    }
}

/// A queue takes frames as long as somebody receives from it and it is not full, and keeps them in the
/// order in which they came.
pub proof fn queues_take_frames_in_order(before: RxQueue, after: RxQueue, handle: usize)
    ensures
        before.takes() <==> before.active && before.queue@.len() < before.queue.spec_capacity(),
        after.is_after_send(before, handle) ==> {
            &&& after.queue@.len() == before.queue@.len() + 1
            &&& after.queue@.last() == handle
            &&& after.queue@.drop_last() == before.queue@
            &&& after.active == before.active
        },
{
    if after.is_after_send(before, handle) {
        assert(after.queue@.drop_last() =~= before.queue@);
    }
}

/// A frame is kept exactly if some interface that it is addressed to takes it, with one handle for
/// each of those.
pub proof fn every_taker_gets_a_handle(queues: Seq<RxQueue>, interfaces: Seq<bool>)
    requires
        queues.len() == 4,
        interfaces.len() == 4,
    ensures
        takers(queues, interfaces, 4) > 0 <==> exists|i: int|
            0 <= i < 4 && #[trigger] interfaces[i] && queues[i].takes(),
        takers(queues, interfaces, 4) == (if interfaces[0] && queues[0].takes() {
            1int
        } else {
            0
        }) + (if interfaces[1] && queues[1].takes() {
            1int
        } else {
            0
        }) + (if interfaces[2] && queues[2].takes() {
            1int
        } else {
            0
        }) + (if interfaces[3] && queues[3].takes() {
            1int
        } else {
            0
        }),
{
    reveal_with_fuel(takers, 5);
    if takers(queues, interfaces, 4) > 0 {
        assert(interfaces[0] && queues[0].takes() || interfaces[1] && queues[1].takes()
            || interfaces[2] && queues[2].takes() || interfaces[3] && queues[3].takes());
    }
}

/// A frame for one interface is queued there, behind all others, if somebody receives from the queue
/// and it has room. No other queue changes, and frames for none or several interfaces are in no queue.
pub proof fn single_frames_reach_their_interface(
    before: Seq<RxQueue>,
    after: Seq<RxQueue>,
    interfaces: Seq<bool>,
    handle: usize,
    queued: bool,
    interface: int,
)
    requires
        interfaces.len() == 4,
        before.len() == 4,
        after.len() == 4,
        0 <= interface < 4,
        packet_processed(before, after, interfaces, handle, queued),
    ensures
        interfaces[interface] && (forall|i: int|
            0 <= i < 4 && i != interface ==> !#[trigger] interfaces[i]) ==> {
            &&& queued <==> before[interface].active && before[interface].queue@.len()
                < before[interface].queue.spec_capacity()
            &&& queued ==> after[interface].queue@ == before[interface].queue@.push(handle)
        },
        !interfaces[interface] || !queued ==> after[interface].queue@ == before[interface].queue@,
        (exists|i: int, j: int|
            0 <= i < j < 4 && #[trigger] interfaces[i] && #[trigger] interfaces[j]) ==> !queued,
        (forall|i: int| 0 <= i < 4 ==> !#[trigger] interfaces[i]) ==> !queued,
        after[interface].active == before[interface].active,
{
    frames_go_to_their_interface(interfaces, interface);
    assert(after[interface].is_same(before[interface]) || after[interface].is_after_send(
        before[interface],
        handle,
    ));
}

/// A frame that is shared is kept if a place is free and at least one of its interfaces takes it. It
/// then has as many handles as interfaces take it, all of them for the place where it stands, and
/// every other frame stays.
pub proof fn shared_frames_reach_their_interfaces(
    before: (Seq<RxQueue>, Seq<Option<RxArcBufferInner>>),
    after: (Seq<RxQueue>, Seq<Option<RxArcBufferInner>>),
    places: int,
    frame: ReceivedFrame,
    kept: bool,
)
    requires
        before.0.len() == 4,
        after.0.len() == 4,
        before.1.len() == places,
        places <= usize::MAX,
        packet_shared(before, after, places, frame, kept),
    ensures
        kept <==> (exists|i: int| 0 <= i < places && (#[trigger] before.1[i]) is None) && (
        exists|i: int|
            0 <= i < 4 && #[trigger] frame.interfaces@[i] && before.0[i].active
                && before.0[i].queue@.len() < before.0[i].queue.spec_capacity()),
        !kept ==> after.1 == before.1,
        forall|i: int|
            0 <= i < 4 && !(kept && frame.interfaces@[i] && before.0[i].takes())
                ==> (#[trigger] after.0[i]).queue@ == before.0[i].queue@,
        kept ==> exists|place: int|
            {
                &&& 0 <= place < places
                &&& (#[trigger] before.1[place]) is None
                &&& after.1[place] matches Some(inner) && inner.frame == frame && inner.refs + 1
                    == takers(before.0, frame.interfaces@, 4)
                &&& forall|i: int|
                    0 <= i < places && i != place ==> #[trigger] after.1[i] == before.1[i]
                &&& forall|i: int|
                    0 <= i < 4 && frame.interfaces@[i] && before.0[i].takes() ==> (
                    #[trigger] after.0[i]).queue@ == before.0[i].queue@.push(place as usize)
            },
{
    every_taker_gets_a_handle(before.0, frame.interfaces@);
    if kept {
        let place = choose|place: int|
            {
                &&& 0 <= place < places
                &&& (#[trigger] before.1[place]) is None
                &&& forall|i: int| 0 <= i < place ==> (#[trigger] before.1[i]) is Some
                &&& after.1 == before.1.update(
                    place,
                    Some(
                        RxArcBufferInner {
                            frame,
                            refs: (takers(before.0, frame.interfaces@, 4) - 1) as usize,
                        },
                    ),
                )
                &&& forall|i: int|
                    0 <= i < INTERFACE_COUNT ==> if frame.interfaces@[i] && before.0[i].takes() {
                        (#[trigger] after.0[i]).is_after_send(before.0[i], place as usize)
                    } else {
                        after.0[i].is_same(before.0[i])
                    }
            };
        assert(before.1[place] is None);
        assert forall|i: int| 0 <= i < places && i != place implies #[trigger] after.1[i]
            == before.1[i] by {}
    }
}

} // verus!

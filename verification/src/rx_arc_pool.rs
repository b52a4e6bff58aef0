//! Reference counted received frames, allocated from a fixed pool.
use vstd::prelude::*;

use crate::radio::ReceivedFrame;

verus! {

/// A frame in the pool.
pub struct RxArcBufferInner {
    /// The frame.
    pub frame: ReceivedFrame,
    /// How many handles there are besides the first.
    pub refs: usize,
}

/// A handle of a frame in the pool.
#[derive(Debug)]
pub struct RxArcBuffer {
    /// Index of the frame in the pool.
    pub index: usize,
}

/// A pool of `N` frames.
pub struct RxArcPool<const N: usize> {
    /// The frames.
    pub state: Vec<Option<RxArcBufferInner>>,
}

impl<const N: usize> RxArcPool<N> {
    /// There are `N` places.
    pub open spec fn wf(&self) -> bool {
        self.state@.len() == N
    }

    /// How many handles of the frame at `index` there are.
    pub open spec fn handles(&self, index: int) -> int {
        match self.state@[index] {
            Some(inner) => inner.refs + 1,
            None => 0,
        }
    }

    /// Create a pool without frames.
    pub fn new() -> (pool: Self)
        ensures
            pool.wf(),
            forall|i: int| 0 <= i < N ==> (#[trigger] pool.state@[i]) is None,
    {
        let mut state: Vec<Option<RxArcBufferInner>> = Vec::new();
        let mut i: usize = 0;
        while i < N
            invariant
                i <= N,
                state@.len() == i,
                forall|j: int| 0 <= j < i ==> (#[trigger] state@[j]) is None,
            decreases N - i,
        {
            state.push(None);
            i = i + 1;
        }
        Self { state }
    }

    /// Put a frame into the first free place, with one handle.
    ///
    /// Where no place is free, the frame is lost.
    pub fn try_alloc(&mut self, frame: ReceivedFrame) -> (buffer: Option<RxArcBuffer>)
        requires
            old(self).wf(),
        ensures
            final(self).wf(),
            buffer is None == (forall|i: int|
                0 <= i < N ==> (#[trigger] old(self).state@[i]) is Some),
            buffer is None ==> *final(self) == *old(self),
            buffer matches Some(buffer) ==> {
                &&& buffer.index < N
                &&& old(self).state@[buffer.index as int] is None
                &&& forall|i: int|
                    0 <= i < buffer.index ==> (#[trigger] old(self).state@[i]) is Some
                &&& final(self).state@ == old(self).state@.update(
                    buffer.index as int,
                    Some(RxArcBufferInner { frame, refs: 0 }),
                )
            },
    {
        let mut i: usize = 0;
        while i < N
            invariant
                i <= N,
                self.wf(),
                *self == *old(self),
                forall|j: int| 0 <= j < i ==> (#[trigger] old(self).state@[j]) is Some,
            decreases N - i,
        {
            if self.state[i].is_none() {
                assert(old(self).state@[i as int] is None);
                self.state.set(i, Some(RxArcBufferInner { frame, refs: 0 }));
                return Some(RxArcBuffer { index: i });
            }
            i = i + 1;
        }
        None
    }

    /// Get the frame of a handle.
    pub fn get(&self, buffer: &RxArcBuffer) -> (frame: &ReceivedFrame)
        requires
            self.wf(),
            buffer.index < N,
            self.handles(buffer.index as int) > 0,
        ensures
            *frame == self.state@[buffer.index as int]->Some_0.frame,
    {
        &self.state[buffer.index].as_ref().unwrap().frame
    }

    /// Make another handle.
    pub fn clone_buffer(&mut self, buffer: &RxArcBuffer) -> (copy: RxArcBuffer)
        requires
            old(self).wf(),
            buffer.index < N,
            old(self).handles(buffer.index as int) > 0,
            old(self).handles(buffer.index as int) <= usize::MAX,
        ensures
            final(self).wf(),
            copy == *buffer,
            final(self).handles(buffer.index as int) == old(self).handles(buffer.index as int) + 1,
            final(self).state@[buffer.index as int]->Some_0.frame == old(
                self,
            ).state@[buffer.index as int]->Some_0.frame,
            forall|i: int|
                0 <= i < N && i != buffer.index ==> #[trigger] final(self).state@[i] == old(
                    self,
                ).state@[i],
    {
        if let Some(inner) = &mut self.state[buffer.index] {
            inner.refs = inner.refs + 1;
        }
        RxArcBuffer { index: buffer.index }
    }

    /// Give up a handle.
    ///
    /// With the last handle the frame leaves the pool.
    pub fn release(&mut self, buffer: RxArcBuffer) -> (freed: Option<ReceivedFrame>)
        requires
            old(self).wf(),
            buffer.index < N,
            old(self).handles(buffer.index as int) > 0,
        ensures
            final(self).wf(),
            final(self).handles(buffer.index as int) == old(self).handles(buffer.index as int) - 1,
            freed is Some == (old(self).handles(buffer.index as int) == 1),
            freed matches Some(frame) ==> frame == old(
                self,
            ).state@[buffer.index as int]->Some_0.frame,
            freed is None ==> final(self).state@[buffer.index as int]->Some_0.frame == old(
                self,
            ).state@[buffer.index as int]->Some_0.frame,
            forall|i: int|
                0 <= i < N && i != buffer.index ==> #[trigger] final(self).state@[i] == old(
                    self,
                ).state@[i],
    {
        let mut last = false;
        if let Some(inner) = &mut self.state[buffer.index] {
            if inner.refs == 0 {
                last = true;
            } else {
                inner.refs = inner.refs - 1;
            }
        }
        if last {
            let mut inner = None;
            std::mem::swap(&mut inner, &mut self.state[buffer.index]);
            match inner {
                Some(inner) => Some(inner.frame),
                None => None,
            }
        } else {
            None
        }
    }
}

/// Giving up a handle that was just made changes nothing.
pub proof fn release_undoes_clone<const N: usize>(
    before: RxArcPool<N>,
    cloned: RxArcPool<N>,
    released: RxArcPool<N>,
    index: int,
)
    requires
        before.wf(),
        cloned.wf(),
        released.wf(),
        0 <= index < N,
        before.handles(index) > 0,
        cloned.handles(index) == before.handles(index) + 1,
        released.handles(index) == cloned.handles(index) - 1,
        cloned.state@[index]->Some_0.frame == before.state@[index]->Some_0.frame,
        released.state@[index]->Some_0.frame == cloned.state@[index]->Some_0.frame,
        forall|i: int| 0 <= i < N && i != index ==> #[trigger] cloned.state@[i] == before.state@[i],
        forall|i: int|
            0 <= i < N && i != index ==> #[trigger] released.state@[i] == cloned.state@[i],
    ensures
        released.state@ == before.state@,
{
    assert(released.state@[index] == before.state@[index]);
    assert forall|i: int| 0 <= i < N implies #[trigger] released.state@[i] == before.state@[i] by {
        if i != index {
            assert(cloned.state@[i] == before.state@[i]);
        }
    }
    assert(released.state@ =~= before.state@);
}

} // verus!

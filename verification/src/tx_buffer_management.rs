//! Buffer management for transmission.
//!
//! A fixed number of buffers is allocated once. Whoever has a buffer owns it until it is released.
use vstd::prelude::*;

use crate::queue::HandleQueue;

verus! {

/// A transmit buffer borrowed from the buffer manager.
#[derive(Debug)]
pub struct TxBuffer {
    /// Index of the buffer in its pool.
    pub index: usize,
    /// The contents.
    pub bytes: Vec<u8>,
}

/// A buffer of `size` zeroes.
pub open spec fn zeroes(size: nat) -> Seq<u8> {
    Seq::new(size, |i: int| 0u8)
}

/// Manages the allocation of [TxBuffer]s from a preallocated pool.
pub struct TxBufferManager<const COUNT: usize, const SIZE: usize> {
    buffer_queue: HandleQueue,
    parked: Vec<Vec<u8>>,
}

impl<const COUNT: usize, const SIZE: usize> TxBufferManager<COUNT, SIZE> {
    /// Indices of the buffers that are free, the one to be allocated next in front.
    pub closed spec fn free(&self) -> Seq<usize> {
        self.buffer_queue@
    }

    /// Every free buffer is free once, and filled with zeroes.
    pub closed spec fn wf(&self) -> bool {
        &&& self.buffer_queue.wf()
        &&& self.buffer_queue.spec_capacity() == COUNT
        &&& self.parked@.len() == COUNT
        &&& forall|i: int| 0 <= i < self.free().len() ==> (#[trigger] self.free()[i]) < COUNT
        &&& self.free().no_duplicates()
        &&& forall|i: int|
            0 <= i < self.free().len() ==> self.parked@[(#[trigger] self.free()[i]) as int]@
                == zeroes(SIZE as nat)
    }

    /// Whether a buffer can be released: it is one of the pool, and out.
    pub open spec fn is_out(&self, buffer: TxBuffer) -> bool {
        &&& buffer.index < COUNT
        &&& buffer.bytes@.len() == SIZE
        &&& !self.free().contains(buffer.index)
    }

    /// Create a new manager, with all buffers free.
    pub fn new() -> (manager: Self)
        ensures
            manager.wf(),
            manager.free() == Seq::new(COUNT as nat, |i: int| i as usize),
    {
        let mut buffer_queue = HandleQueue::new(COUNT);
        let mut parked: Vec<Vec<u8>> = Vec::new();
        let mut i: usize = 0;
        while i < COUNT
            invariant
                i <= COUNT,
                buffer_queue.wf(),
                buffer_queue.spec_capacity() == COUNT,
                buffer_queue@ == Seq::new(i as nat, |j: int| j as usize),
                parked@.len() == i,
                forall|j: int| 0 <= j < i ==> (#[trigger] parked@[j])@ == zeroes(SIZE as nat),
            decreases COUNT - i,
        {
            let buffer = zeroed::<SIZE>();
            parked.push(buffer);
            let _ = buffer_queue.try_send(i);
            i = i + 1;
            assert(buffer_queue@ =~= Seq::new(i as nat, |j: int| j as usize));
        }
        Self { buffer_queue, parked }
    }

    /// Try allocating a [TxBuffer].
    pub fn try_alloc(&mut self) -> (buffer: Option<TxBuffer>)
        requires
            old(self).wf(),
        ensures
            final(self).wf(),
            buffer is Some == (old(self).free().len() > 0),
            buffer is None ==> final(self).free() == old(self).free(),
            buffer matches Some(buffer) ==> {
                &&& buffer.index == old(self).free().first()
                &&& buffer.bytes@ == zeroes(SIZE as nat)
                &&& final(self).free() == old(self).free().drop_first()
                &&& final(self).is_out(buffer)
            },
    {
        match self.buffer_queue.try_receive() {
            Some(index) => {
                let mut bytes: Vec<u8> = Vec::new();
                assert(old(self).free()[0] == index);
                std::mem::swap(&mut bytes, &mut self.parked[index]);
                proof {
                    let before = old(self).free();
                    assert forall|i: int| 0 <= i < self.free().len() implies (
                    #[trigger] self.free()[i]) < COUNT && self.free()[i] != index by {
                        assert(self.free()[i] == before[i + 1]);
                    }
                    assert forall|i: int, j: int|
                        0 <= i < self.free().len() && 0 <= j < self.free().len() && i
                            != j implies self.free()[i] != self.free()[j] by {
                        assert(self.free()[i] == before[i + 1]);
                        assert(self.free()[j] == before[j + 1]);
                    }
                    assert forall|i: int| 0 <= i < self.free().len() implies self.parked@[(
                    #[trigger] self.free()[i]) as int]@ == zeroes(SIZE as nat) by {
                        assert(self.free()[i] == before[i + 1]);
                    }
                }
                Some(TxBuffer { index, bytes })
            },
            None => None,
        }
    }

    /// Return a buffer to the pool, and clear it.
    ///
    /// There is room for it: the free places are exactly those of the buffers that are out.
    pub fn release(&mut self, buffer: TxBuffer)
        requires
            old(self).wf(),
            old(self).is_out(buffer),
        ensures
            final(self).wf(),
            final(self).free() == old(self).free().push(buffer.index),
    {
        let mut bytes = buffer.bytes;
        let mut i: usize = 0;
        while i < bytes.len()
            invariant
                i <= bytes@.len(),
                bytes@.len() == SIZE,
                forall|j: int| 0 <= j < i ==> bytes@[j] == 0,
            decreases bytes@.len() - i,
        {
            bytes.set(i, 0);
            i = i + 1;
        }
        assert(bytes@ =~= zeroes(SIZE as nat));
        proof {
            lemma_room_for_one_more(self.free(), buffer.index, COUNT);
        }
        let _ = self.buffer_queue.try_send(buffer.index);
        self.parked.set(buffer.index, bytes);
        proof {
            let before = old(self).free();
            assert(self.free() == before.push(buffer.index));
            assert forall|i: int, j: int|
                0 <= i < self.free().len() && 0 <= j < self.free().len() && i
                    != j implies self.free()[i] != self.free()[j] by {
                assert(i < before.len() ==> before.contains(before[i]));
                assert(j < before.len() ==> before.contains(before[j]));
            }
            assert forall|i: int| 0 <= i < self.free().len() implies self.parked@[(
            #[trigger] self.free()[i]) as int]@ == zeroes(SIZE as nat) by {
                assert(i < before.len() ==> before.contains(before[i]));
            }
        }
    }
}

/// Distinct indices below `count` of which one is missing are fewer than `count`.
proof fn lemma_room_for_one_more(free: Seq<usize>, index: usize, count: usize)
    requires
        free.no_duplicates(),
        forall|i: int| 0 <= i < free.len() ==> (#[trigger] free[i]) < count,
        !free.contains(index),
        index < count,
    ensures
        free.len() < count,
{
    let all = Set::new(|i: usize| i < count);
    let others = free.to_set().insert(index);
    free.unique_seq_to_set();
    vstd::seq_lib::seq_to_set_is_finite::<usize>(free);
    assert(others.len() == free.len() + 1);
    lemma_indices_finite(count);
    assert(others.subset_of(all));
    vstd::set_lib::lemma_len_subset(others, all);
}

/// There are `count` indices below `count`.
proof fn lemma_indices_finite(count: usize)
    ensures
        Set::new(|i: usize| i < count).finite(),
        Set::new(|i: usize| i < count).len() == count,
    decreases count,
{
    let all = Set::new(|i: usize| i < count);
    if count == 0 {
        assert(all =~= Set::empty());
    } else {
        let last = (count - 1) as usize;
        let fewer = Set::new(|i: usize| i < last);
        lemma_indices_finite(last);
        assert(all =~= fewer.insert(last));
    }
}

/// Allocate a buffer of zeroes.
fn zeroed<const SIZE: usize>() -> (buffer: Vec<u8>)
    ensures
        buffer@ == zeroes(SIZE as nat),
{
    let mut buffer: Vec<u8> = Vec::new();
    let mut i: usize = 0;
    while i < SIZE
        invariant
            i <= SIZE,
            buffer@ == zeroes(i as nat),
        decreases SIZE - i,
    {
        buffer.push(0);
        i = i + 1;
        assert(buffer@ =~= zeroes(i as nat));
    }
    buffer
}

} // verus!

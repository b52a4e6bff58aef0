//! Bounded queues of buffer handles.
//!
//! Received frames and transmit buffers live in fixed pools. What is queued is the index of a
//! buffer in its pool.
use vstd::prelude::*;

use embassy_sync::blocking_mutex::raw::NoopRawMutex;
use embassy_sync::channel::Channel;

verus! {

/// How many handles fit into one channel.
const CHANNEL_CAPACITY: usize = 64;

/// An `embassy_sync` channel of handles.
#[verifier::external_body]
pub struct HandleChannel {
    channel: Channel<NoopRawMutex, usize, CHANNEL_CAPACITY>,
}

/// The handles in a channel, the one sent first in front.
pub uninterp spec fn channel_contents(channel: HandleChannel) -> Seq<usize>;

/// Create an empty channel.
///
/// Calls `embassy_sync::channel::Channel::new`.
#[verifier::external_body]
fn new_channel() -> (channel: HandleChannel)
    ensures
        channel_contents(channel) == Seq::<usize>::empty(),
{
    HandleChannel { channel: Channel::new() }
}

/// Put a handle behind all others.
///
/// Calls `embassy_sync::channel::Channel::try_send`, which fails if the channel is full and
/// changes nothing then.
#[verifier::external_body]
fn channel_try_send(channel: &mut HandleChannel, handle: usize) -> (sent: bool)
    ensures
        sent == (channel_contents(*old(channel)).len() < CHANNEL_CAPACITY),
        channel_contents(*final(channel)) == if sent {
            channel_contents(*old(channel)).push(handle)
        } else {
            channel_contents(*old(channel))
        },
{
    channel.channel.try_send(handle).is_ok()
}

/// Take the handle that was sent first.
///
/// Calls `embassy_sync::channel::Channel::try_receive`, which fails if the channel is empty.
#[verifier::external_body]
fn channel_try_receive(channel: &mut HandleChannel) -> (handle: Option<usize>)
    ensures
        handle is Some == (channel_contents(*old(channel)).len() > 0),
        handle matches Some(handle) ==> {
            &&& handle == channel_contents(*old(channel)).first()
            &&& channel_contents(*final(channel)) == channel_contents(*old(channel)).drop_first()
        },
        handle is None ==> channel_contents(*final(channel)) == channel_contents(*old(channel)),
{
    channel.channel.try_receive().ok()
}

/// Count the handles in a channel.
///
/// Calls `embassy_sync::channel::Channel::len`.
#[verifier::external_body]
fn channel_len(channel: &HandleChannel) -> (len: usize)
    ensures
        len == channel_contents(*channel).len(),
{
    channel.channel.len()
}

/// The handles in the first `count` channels of a chain.
closed spec fn joined(chain: Seq<HandleChannel>, count: int) -> Seq<usize>
    decreases count,
{
    if count <= 0 {
        seq![]
    } else {
        joined(chain, count - 1) + channel_contents(chain[count - 1])
    }
}

/// A first in, first out queue of at most `capacity` handles.
///
/// The handles are in one channel, as long as they fit. Further channels follow when they do not.
pub struct HandleQueue {
    front: HandleChannel,
    rest: Vec<HandleChannel>,
    capacity: usize,
}

impl View for HandleQueue {
    type V = Seq<usize>;

    closed spec fn view(&self) -> Seq<usize> {
        channel_contents(self.front) + joined(self.rest@, self.rest@.len() as int)
    }
}

impl HandleQueue {
    /// How many handles fit into the queue.
    pub closed spec fn spec_capacity(&self) -> usize {
        self.capacity
    }

    /// All channels but the front one hold handles, and those only if the front one does too.
    pub closed spec fn chained(&self) -> bool {
        &&& forall|i: int|
            0 <= i < self.rest@.len() ==> channel_contents(#[trigger] self.rest@[i]).len() > 0
        &&& channel_contents(self.front).len() == 0 ==> self.rest@.len() == 0
    }

    /// There are no more handles than fit.
    pub open spec fn wf(&self) -> bool {
        self.chained() && self@.len() <= self.spec_capacity()
    }

    /// Create an empty queue.
    pub fn new(capacity: usize) -> (queue: Self)
        ensures
            queue.wf(),
            queue@ == Seq::<usize>::empty(),
            queue.spec_capacity() == capacity,
    {
        let queue = Self { front: new_channel(), rest: Vec::new(), capacity };
        assert(queue@ =~= Seq::<usize>::empty());
        queue
    }

    /// Put a handle behind all others, unless the queue is full.
    pub fn try_send(&mut self, handle: usize) -> (sent: bool)
        requires
            old(self).wf(),
        ensures
            final(self).wf(),
            final(self).spec_capacity() == old(self).spec_capacity(),
            sent == (old(self)@.len() < old(self).spec_capacity()),
            final(self)@ == if sent {
                old(self)@.push(handle)
            } else {
                old(self)@
            },
    {
        if self.len() >= self.capacity {
            return false;
        }
        let ghost before = self.rest@;
        let last = self.rest.pop();
        match last {
            None => {
                assert(before =~= self.rest@);
                if !channel_try_send(&mut self.front, handle) {
                    self.append(handle);
                }
            },
            Some(mut last) => {
                proof {
                    lemma_joined_prefix(before, self.rest@, self.rest@.len() as int);
                }
                let sent = channel_try_send(&mut last, handle);
                let ghost kept = self.rest@;
                self.rest.push(last);
                proof {
                    lemma_joined_prefix(self.rest@, kept, kept.len() as int);
                }
                if !sent {
                    self.append(handle);
                }
            },
        }
        assert(self@ =~= old(self)@.push(handle));
        true
    }

    /// Put a handle into a channel of its own, behind all others.
    fn append(&mut self, handle: usize)
        requires
            channel_contents(old(self).front).len() > 0,
            old(self).chained(),
        ensures
            final(self).chained(),
            final(self).capacity == old(self).capacity,
            final(self)@ == old(self)@.push(handle),
    {
        let ghost before = self.rest@;
        let mut channel = new_channel();
        let _ = channel_try_send(&mut channel, handle);
        self.rest.push(channel);
        proof {
            lemma_joined_prefix(self.rest@, before, before.len() as int);
        }
        assert(self@ =~= old(self)@.push(handle));
    }

    /// Take the handle that was sent first.
    pub fn try_receive(&mut self) -> (handle: Option<usize>)
        requires
            old(self).wf(),
        ensures
            final(self).wf(),
            final(self).spec_capacity() == old(self).spec_capacity(),
            handle is Some == (old(self)@.len() > 0),
            handle matches Some(handle) ==> {
                &&& handle == old(self)@.first()
                &&& final(self)@ == old(self)@.drop_first()
            },
            handle is None ==> final(self)@ == old(self)@,
    {
        let handle = channel_try_receive(&mut self.front);
        let ghost received = *self;
        assert(handle is Some ==> received@ =~= old(self)@.drop_first());
        if channel_len(&self.front) == 0 && self.rest.len() > 0 {
            let ghost before = self.rest@;
            self.front = self.rest.remove(0);
            proof {
                lemma_joined_suffix(before, self.rest@, before.len() as int);
            }
            assert(self@ =~= received@);
        }
        handle
    }

    /// Count the handles.
    pub fn len(&self) -> (len: usize)
        requires
            self.wf(),
        ensures
            len == self@.len(),
    {
        let mut len: usize = channel_len(&self.front);
        let mut i: usize = 0;
        while i < self.rest.len()
            invariant
                i <= self.rest@.len(),
                len == channel_contents(self.front).len() + joined(self.rest@, i as int).len(),
                self.wf(),
            decreases self.rest@.len() - i,
        {
            proof {
                lemma_joined_grows(self.rest@, i + 1, self.rest@.len() as int);
            }
            len = len + channel_len(&self.rest[i]);
            i = i + 1;
        }
        len
    }

    /// Remove all handles, and return them: what they refer to is to be given back.
    pub fn clear(&mut self) -> (removed: Vec<usize>)
        requires
            old(self).wf(),
        ensures
            final(self).wf(),
            final(self).spec_capacity() == old(self).spec_capacity(),
            final(self)@ == Seq::<usize>::empty(),
            removed@ == old(self)@,
    {
        let mut removed: Vec<usize> = Vec::new();
        loop
            invariant
                self.wf(),
                self.spec_capacity() == old(self).spec_capacity(),
                removed@ + self@ == old(self)@,
            decreases self@.len(),
        {
            let ghost before = removed@ + self@;
            match self.try_receive() {
                Some(handle) => {
                    removed.push(handle);
                    assert(removed@ + self@ =~= before);
                },
                None => {
                    assert(removed@ + self@ =~= removed@);
                    assert(self@ =~= Seq::<usize>::empty());
                    return removed;
                },
            }
        }
    }
}

/// More channels do not hold fewer handles.
proof fn lemma_joined_grows(chain: Seq<HandleChannel>, count: int, more: int)
    requires
        0 <= count <= more,
    ensures
        joined(chain, count).len() <= joined(chain, more).len(),
    decreases more,
{
    if count < more {
        lemma_joined_grows(chain, count, more - 1);
    }
}

/// The handles in the first channels depend on those channels only.
proof fn lemma_joined_prefix(chain: Seq<HandleChannel>, other: Seq<HandleChannel>, count: int)
    requires
        0 <= count <= chain.len(),
        count <= other.len(),
        forall|i: int| 0 <= i < count ==> chain[i] == other[i],
    ensures
        joined(chain, count) == joined(other, count),
    decreases count,
{
    if count > 0 {
        lemma_joined_prefix(chain, other, count - 1);
    }
}

/// The handles in a chain are those in its first channel, and then those in the others.
proof fn lemma_joined_suffix(chain: Seq<HandleChannel>, others: Seq<HandleChannel>, count: int)
    requires
        1 <= count <= chain.len(),
        others == chain.drop_first(),
    ensures
        joined(chain, count) == channel_contents(chain[0]) + joined(others, count - 1),
    decreases count,
{
    if count > 1 {
        lemma_joined_suffix(chain, others, count - 1);
        assert(others[count - 2] == chain[count - 1]);
        assert(joined(chain, count) =~= channel_contents(chain[0]) + joined(others, count - 1));
    } else {
        assert(joined(chain, 0) =~= seq![]);
        assert(joined(chain, 1) =~= channel_contents(chain[0]) + joined(others, 0));
    }
}

} // verus!

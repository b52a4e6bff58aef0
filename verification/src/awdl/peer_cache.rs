//! The peers that are currently known.
use vstd::prelude::*;

use crate::awdl::peer::{
    AwdlPeer, ElectionState, OverlapSlotState, SynchronizationState, CHANNEL_SEQUENCE_DURATION,
};
use crate::awdl::PEER_CACHE_SIZE;
use crate::bytes::bytes_equal;

verus! {

/// A peer and its address.
#[derive(Clone, Copy, Debug)]
pub struct CachedPeer {
    /// Address of the peer.
    pub address: [u8; 6],
    /// What is known about it.
    pub peer: AwdlPeer,
}

impl CachedPeer {
    /// Whether more time has passed since the last frame of the peer than the timeout allows.
    pub open spec fn is_stale(&self, timeout: u64, now: u64) -> bool {
        now - self.peer.last_frame > timeout
    }
}

/// The peers among the first `count` that are stale, or those that are not.
pub open spec fn selected(
    peers: Seq<CachedPeer>,
    count: int,
    stale: bool,
    timeout: u64,
    now: u64,
) -> Seq<CachedPeer>
    decreases count,
{
    if count <= 0 {
        seq![]
    } else {
        let others = selected(peers, count - 1, stale, timeout, now);
        if peers[count - 1].is_stale(timeout, now) == stale {
            others.push(peers[count - 1])
        } else {
            others
        }
    }
}

/// The peer among the first `count` that wins the election: each peer that does not follow us
/// replaces whom we would follow so far, ourselves at first, if that one yields to it.
pub open spec fn winner(
    peers: Seq<CachedPeer>,
    count: int,
    own: ElectionState,
    our_address: Seq<u8>,
) -> Option<int>
    decreases count,
{
    if count <= 0 {
        None
    } else {
        let before = winner(peers, count - 1, own, our_address);
        let favourite = match before {
            Some(i) => peers[i].peer.election_state,
            None => own,
        };
        let state = peers[count - 1].peer.election_state;
        if state.master()@ != our_address && favourite.yields_to(state) {
            Some(count - 1)
        } else {
            before
        }
    }
}

/// The peers that are currently known.
pub struct AwdlPeerCache {
    pub peers: Vec<CachedPeer>,
}

impl AwdlPeerCache {
    /// No address occurs twice, and there are not too many peers.
    pub open spec fn wf(&self) -> bool {
        &&& self.peers@.len() <= PEER_CACHE_SIZE
        &&& forall|i: int, j: int|
            0 <= i < j < self.peers@.len() ==> (#[trigger] self.peers@[i]).address@ != (
            #[trigger] self.peers@[j]).address@
    }

    /// Whether the peer at `index` has the given address.
    pub open spec fn is_at(&self, index: int, address: Seq<u8>) -> bool {
        0 <= index < self.peers@.len() && self.peers@[index].address@ == address
    }

    /// Whether a peer is known.
    pub open spec fn contains(&self, address: Seq<u8>) -> bool {
        exists|index: int| #[trigger] self.is_at(index, address)
    }

    /// Start without peers.
    pub fn new() -> (cache: Self)
        ensures
            cache.wf(),
            cache.peers@.len() == 0,
    {
        Self { peers: Vec::new() }
    }

    /// Find a peer.
    pub fn find(&self, address: &[u8; 6]) -> (index: Option<usize>)
        ensures
            index is Some == self.contains(address@),
            index matches Some(index) ==> self.is_at(index as int, address@),
    {
        let mut i: usize = 0;
        while i < self.peers.len()
            invariant
                i <= self.peers@.len(),
                forall|j: int| 0 <= j < i ==> !(#[trigger] self.is_at(j, address@)),
            decreases self.peers@.len() - i,
        {
            if bytes_equal(&self.peers[i].address, address) {
                assert(self.is_at(i as int, address@));
                return Some(i);
            }
            i += 1;
        }
        None
    }

    /// Check if the specified peer is in cache.
    pub fn contains_key(&self, address: &[u8; 6]) -> (contained: bool)
        ensures
            contained == self.contains(address@),
    {
        self.find(address).is_some()
    }

    /// Add a peer, unless there are too many. Returns whether it was added.
    pub fn add(&mut self, address: [u8; 6], peer: AwdlPeer) -> (added: bool)
        requires
            old(self).wf(),
            !old(self).contains(address@),
        ensures
            final(self).wf(),
            added == (old(self).peers@.len() < PEER_CACHE_SIZE),
            final(self).peers@ == if added {
                old(self).peers@.push(CachedPeer { address, peer })
            } else {
                old(self).peers@
            },
    {
        if self.peers.len() < PEER_CACHE_SIZE {
            assert forall|i: int| 0 <= i < self.peers@.len() implies (
            #[trigger] self.peers@[i]).address@ != address@ by {
                assert(!self.is_at(i, address@));
            }
            self.peers.push(CachedPeer { address, peer });
            true
        } else {
            false
        }
    }

    /// Remove all peers.
    pub fn clear(&mut self)
        ensures
            final(self).wf(),
            final(self).peers@.len() == 0,
    {
        self.peers = Vec::new();
    }

    /// Remove the peers that are stale, and return them.
    pub fn purge_stale_peers(&mut self, timeout: u64, now: u64) -> (stale: Vec<CachedPeer>)
        requires
            old(self).wf(),
        ensures
            final(self).wf(),
            final(self).peers@ == selected(
                old(self).peers@,
                old(self).peers@.len() as int,
                false,
                timeout,
                now,
            ),
            stale@ == selected(
                old(self).peers@,
                old(self).peers@.len() as int,
                true,
                timeout,
                now,
            ),
    {
        let mut kept: Vec<CachedPeer> = Vec::new();
        let mut stale: Vec<CachedPeer> = Vec::new();
        let mut i: usize = 0;
        while i < self.peers.len()
            invariant
                i <= self.peers@.len(),
                kept@ == selected(self.peers@, i as int, false, timeout, now),
                stale@ == selected(self.peers@, i as int, true, timeout, now),
            decreases self.peers@.len() - i,
        {
            let cached = self.peers[i];
            if now > cached.peer.last_frame && now - cached.peer.last_frame > timeout {
                stale.push(cached);
            } else {
                kept.push(cached);
            }
            i += 1;
        }
        proof {
            lemma_selected(self.peers@, self.peers@.len() as int, false, timeout, now);
            assert forall|i: int, j: int| 0 <= i < j < kept@.len() implies (
            #[trigger] kept@[i]).address@ != (#[trigger] kept@[j]).address@ by {
                let a = selection_index(self.peers@, self.peers@.len() as int, false, timeout, now, i);
                let b = selection_index(self.peers@, self.peers@.len() as int, false, timeout, now, j);
                assert(self.peers@[a].address@ != self.peers@[b].address@);
            }
        }
        self.peers = kept;
        stale
    }

    /// Find the peer that should be our master. There is none if we should be.
    pub fn find_master(&self, election_state: &ElectionState, our_address: &[u8; 6]) -> (master:
        Option<usize>)
        ensures
            master is Some == winner(
                self.peers@,
                self.peers@.len() as int,
                *election_state,
                our_address@,
            ) is Some,
            master matches Some(master) ==> Some(master as int) == winner(
                self.peers@,
                self.peers@.len() as int,
                *election_state,
                our_address@,
            ),
            master matches Some(master) ==> master < self.peers@.len(),
    {
        let mut master: Option<usize> = None;
        let mut favourite = *election_state;
        let mut i: usize = 0;
        while i < self.peers.len()
            invariant
                i <= self.peers@.len(),
                master is Some == winner(self.peers@, i as int, *election_state, our_address@)
                    is Some,
                master matches Some(index) ==> index < i && Some(index as int) == winner(
                    self.peers@,
                    i as int,
                    *election_state,
                    our_address@,
                ),
                favourite == match winner(self.peers@, i as int, *election_state, our_address@) {
                    Some(index) => self.peers@[index].peer.election_state,
                    None => *election_state,
                },
            decreases self.peers@.len() - i,
        {
            let state = self.peers[i].peer.election_state;
            if !state.is_master(our_address) && favourite.is_more_eligible(&state) {
                master = Some(i);
                favourite = state;
            }
            i += 1;
        }
        master
    }

    /// Get the nearest overlap slot with the specified peer.
    pub fn get_common_slot_for_peer(
        &self,
        peer_address: &[u8; 6],
        our_sync_state: &SynchronizationState,
        now: u64,
    ) -> (state: OverlapSlotState)
        requires
            now <= u64::MAX - 2 * CHANNEL_SEQUENCE_DURATION,
        ensures
            state is PeerNotInCache == !self.contains(peer_address@),
            self.contains(peer_address@) ==> exists|index: int|
                {
                    &&& #[trigger] self.is_at(index, peer_address@)
                    &&& our_sync_state.meets_next(
                        self.peers@[index].peer.synchronization_state,
                        now as int,
                        state,
                    )
                },
    {
        match self.find(peer_address) {
            Some(index) => {
                assert(self.is_at(index as int, peer_address@));
                our_sync_state.next_overlap_timestamp_at(
                    &self.peers[index].peer.synchronization_state,
                    now,
                )
            },
            None => OverlapSlotState::PeerNotInCache,
        }
    }
}

/// Where the peer at `index` in a selection comes from.
pub open spec fn selection_index(
    peers: Seq<CachedPeer>,
    count: int,
    stale: bool,
    timeout: u64,
    now: u64,
    index: int,
) -> int
    decreases count,
{
    if count <= 0 {
        0
    } else if peers[count - 1].is_stale(timeout, now) == stale && index == selected(
        peers,
        count - 1,
        stale,
        timeout,
        now,
    ).len() {
        count - 1
    } else {
        selection_index(peers, count - 1, stale, timeout, now, index)
    }
}

/// A selection keeps the order.
pub proof fn lemma_selected(peers: Seq<CachedPeer>, count: int, stale: bool, timeout: u64, now: u64)
    requires
        0 <= count <= peers.len(),
    ensures
        selected(peers, count, stale, timeout, now).len() <= count,
        forall|i: int|
            0 <= i < selected(peers, count, stale, timeout, now).len() ==> {
                let source = #[trigger] selection_index(peers, count, stale, timeout, now, i);
                &&& 0 <= source < count
                &&& selected(peers, count, stale, timeout, now)[i] == peers[source]
                &&& peers[source].is_stale(timeout, now) == stale
            },
        forall|i: int, j: int|
            0 <= i < j < selected(peers, count, stale, timeout, now).len()
                ==> #[trigger] selection_index(peers, count, stale, timeout, now, i)
                < #[trigger] selection_index(peers, count, stale, timeout, now, j),
    decreases count,
{
    if count > 0 {
        lemma_selected(peers, count - 1, stale, timeout, now);
        let chosen = selected(peers, count, stale, timeout, now);
        assert forall|i: int| 0 <= i < chosen.len() implies {
            let source = #[trigger] selection_index(peers, count, stale, timeout, now, i);
            &&& 0 <= source < count
            &&& chosen[i] == peers[source]
            &&& peers[source].is_stale(timeout, now) == stale
        } by {
            let before = selection_index(peers, count - 1, stale, timeout, now, i);
        }
        assert forall|i: int, j: int| 0 <= i < j < chosen.len() implies #[trigger] selection_index(
            peers,
            count,
            stale,
            timeout,
            now,
            i,
        ) < #[trigger] selection_index(peers, count, stale, timeout, now, j) by {
            let first = selection_index(peers, count - 1, stale, timeout, now, i);
            let second = selection_index(peers, count - 1, stale, timeout, now, j);
        }
    }
}

/// Nobody whom we could follow is more eligible than the winner of an election, or than us if
/// there is no winner. A winner is more eligible than us.
pub proof fn winner_is_unbeaten(
    peers: Seq<CachedPeer>,
    count: int,
    own: ElectionState,
    our_address: Seq<u8>,
)
    requires
        0 <= count <= peers.len(),
    ensures
        winner(peers, count, own, our_address) matches Some(index) ==> {
            &&& 0 <= index < count
            &&& peers[index].peer.election_state.master()@ != our_address
            &&& own.yields_to(peers[index].peer.election_state)
        },
        forall|i: int|
            0 <= i < count && (#[trigger] peers[i]).peer.election_state.master()@ != our_address
                ==> !(match winner(peers, count, own, our_address) {
                Some(index) => peers[index].peer.election_state,
                None => own,
            }).yields_to(peers[i].peer.election_state),
    decreases count,
{
    if count > 0 {
        winner_is_unbeaten(peers, count - 1, own, our_address);
    }
}

/// After stale peers were purged, none is left: a second purge at the same time removes nothing.
pub proof fn purge_leaves_no_stale_peer(peers: Seq<CachedPeer>, timeout: u64, now: u64)
    ensures
        ({
            let kept = selected(peers, peers.len() as int, false, timeout, now);
            &&& forall|i: int| 0 <= i < kept.len() ==> !(#[trigger] kept[i]).is_stale(timeout, now)
            &&& selected(kept, kept.len() as int, true, timeout, now).len() == 0
        }),
{
    let kept = selected(peers, peers.len() as int, false, timeout, now);
    lemma_selected(peers, peers.len() as int, false, timeout, now);
    assert forall|i: int| 0 <= i < kept.len() implies !(#[trigger] kept[i]).is_stale(
        timeout,
        now,
    ) by {
        let source = selection_index(peers, peers.len() as int, false, timeout, now, i);
        assert(kept[i] == peers[source]);
    }
    lemma_selected(kept, kept.len() as int, true, timeout, now);
    let purged = selected(kept, kept.len() as int, true, timeout, now);
    if purged.len() > 0 {
        let source = selection_index(kept, kept.len() as int, true, timeout, now, 0);
        assert(kept[source].is_stale(timeout, now));
    }
}

} // verus!

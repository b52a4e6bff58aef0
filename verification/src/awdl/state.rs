//! The state of the interface.
use vstd::prelude::*;

use crate::awdl::peer::{
    AwdlPeer, ElectionState, OverlapSlotState, SynchronizationState, CHANNEL_SEQUENCE_DURATION,
};
use crate::awdl::peer_cache::{winner, AwdlPeerCache};

use crate::time::now_micros;

verus! {

/// State of the AWDL interface pushed to the runner.
#[derive(Clone, Copy, Debug)]
pub enum AwdlState {
    Active { our_address: [u8; 6], channel: u8 },
    Inactive,
}

/// The services of a peer.
#[derive(Clone, Copy, Debug)]
pub struct PeerEventServiceParameters {
    pub address: [u8; 6],
    pub airdrop_port: Option<u16>,
    pub airplay_port: Option<u16>,
}

/// What happened on the interface.
#[derive(Clone, Copy, Debug)]
pub enum AwdlEvent {
    /// A peer was discovered.
    PeerDiscovered([u8; 6]),
    /// A service of a peer was discovered.
    DiscoveredServiceForPeer {
        address: [u8; 6],
        airdrop_port: Option<u16>,
        airplay_port: Option<u16>,
    },
    /// Nothing was heard of a peer for too long.
    PeerWentStale(PeerEventServiceParameters),
}

/// Parameters that may change over the course of a session.
#[derive(Clone, Copy, Debug)]
pub struct DynamicSessionParameters {
    /// When the time that has elapsed since the last frame from a peer is greater than this
    /// timeout, the peer is considered stale. Unit: µs.
    pub stale_peer_timeout: u64,
    /// The country code to be broadcast in the data path TLV.
    pub country_code: [char; 2],
}

impl DynamicSessionParameters {
    /// Start with a timeout of three seconds.
    pub fn new() -> (parameters: Self)
        ensures
            parameters.stale_peer_timeout == 3_000_000,
            parameters.country_code@ == seq!['X', '0'],
    {
        let country_code = ['X', '0'];
        assert(country_code@ =~= seq!['X', '0']);
        Self { stale_peer_timeout: 3_000_000, country_code }
    }
}

/// Resources shared between multiple components of the interface.
pub struct CommonResources {
    /// Stores all currently known peers.
    pub peer_cache: AwdlPeerCache,
    /// Dynamically changing parameters.
    pub dynamic_session_parameters: DynamicSessionParameters,
    /// Synchronization state for the currently active session if any.
    pub sync_state: SynchronizationState,
    /// Election state for the currently active session if any.
    pub election_state: ElectionState,
}

impl CommonResources {
    /// The peers are in order, and all that is announced about the election is known.
    pub open spec fn wf(&self) -> bool {
        self.peer_cache.wf() && self.election_state.is_complete()
    }

    /// Start without a session.
    pub fn new() -> (resources: Self)
        ensures
            resources.wf(),
            resources.peer_cache.peers@.len() == 0,
            resources.dynamic_session_parameters.stale_peer_timeout == 3_000_000,
            resources.dynamic_session_parameters.country_code@ == seq!['X', '0'],
            resources.sync_state.channel_sequence@ == Seq::new(16, |i: int| 6u8),
            resources.sync_state.tsf_epoch_in_us == 0,
            resources.election_state.root_peer@ == Seq::new(6, |i: int| 0u8),
            resources.election_state == ElectionState::initial(resources.election_state.root_peer),
    {
        let channel_sequence = [6u8; 16];
        assert(channel_sequence@ =~= Seq::new(16, |i: int| 6u8));
        let address = [0u8; 6];
        assert(address@ =~= Seq::new(6, |i: int| 0u8));
        Self {
            peer_cache: AwdlPeerCache::new(),
            dynamic_session_parameters: DynamicSessionParameters::new(),
            sync_state: SynchronizationState { channel_sequence, tsf_epoch_in_us: 0 },
            election_state: ElectionState::new(address),
        }
    }

    /// Initialize the parameters for a new session that starts at `now`.
    pub fn initialize_session_parameters_at(&mut self, channel: u8, address: [u8; 6], now: u64)
        requires
            old(self).wf(),
        ensures
            final(self).wf(),
            final(self).sync_state.channel_sequence@ == Seq::new(16, |i: int| channel),
            final(self).sync_state.tsf_epoch_in_us == crate::awdl::peer::wrapped(now as int),
            *final(self) == (CommonResources {
                sync_state: final(self).sync_state,
                election_state: ElectionState::initial(address),
                ..*old(self)
            }),
    {
        self.sync_state = SynchronizationState::new_at(channel, now);
        self.election_state = ElectionState::new(address);
    }

    /// Initialize the parameters for a new session.
    pub fn initialize_session_parameters(&mut self, channel: u8, address: [u8; 6])
        requires
            old(self).wf(),
        ensures
            final(self).wf(),
            final(self).sync_state.channel_sequence@ == Seq::new(16, |i: int| channel),
            *final(self) == (CommonResources {
                sync_state: final(self).sync_state,
                election_state: ElectionState::initial(address),
                ..*old(self)
            }),
    {
        self.initialize_session_parameters_at(channel, address, now_micros());
    }

    /// Check if the specified peer is our master.
    pub fn is_peer_master(&self, address: &[u8; 6]) -> (master: bool)
        ensures
            master == (self.election_state.master()@ == address@),
    {
        self.election_state.is_master(address)
    }

    /// The state after a peer was adopted as our master.
    pub open spec fn following(&self, address: [u8; 6], peer: AwdlPeer) -> CommonResources {
        CommonResources {
            sync_state: SynchronizationState {
                tsf_epoch_in_us: peer.synchronization_state.tsf_epoch_in_us,
                ..self.sync_state
            },
            election_state: self.election_state.following(address, peer.election_state),
            ..*self
        }
    }

    /// Adjust the election and synchronization state to adopt the specified peer as our master.
    pub fn adopt_peer_as_master(&mut self, address: &[u8; 6], peer: &AwdlPeer)
        requires
            old(self).wf(),
        ensures
            final(self).wf(),
            *final(self) == old(self).following(*address, *peer),
    {
        self.sync_state.adopt_master(&peer.synchronization_state);
        self.election_state.adopt_master(address, &peer.election_state);
    }

    /// The state after an election: we follow the winner if there is one, and ourselves otherwise.
    pub open spec fn elected(&self, our_address: [u8; 6]) -> CommonResources {
        match winner(
            self.peer_cache.peers@,
            self.peer_cache.peers@.len() as int,
            self.election_state,
            our_address@,
        ) {
            Some(index) => self.following(
                self.peer_cache.peers@[index].address,
                self.peer_cache.peers@[index].peer,
            ),
            None => if self.election_state.master()@ == our_address@ {
                *self
            } else {
                CommonResources { election_state: ElectionState::initial(our_address), ..*self }
            },
        }
    }

    /// Choose a master for time synchronization.
    pub fn elect_master(&mut self, our_address: &[u8; 6])
        requires
            old(self).wf(),
        ensures
            final(self).wf(),
            *final(self) == old(self).elected(*our_address),
    {
        match self.peer_cache.find_master(&self.election_state, our_address) {
            Some(index) => {
                // We adopt the master for the sync and election parameters, which will also
                // synchronize us.
                let master = self.peer_cache.peers[index];
                self.adopt_peer_as_master(&master.address, &master.peer);
            },
            None => if !self.election_state.is_master(our_address) {
                // We weren't master before, but now are. This happens if we either win the
                // election or the peer cache is empty.
                self.election_state.set_master_to_self(*our_address);
            },
        }
    }

    /// Get the nearest overlap slot with the specified peer.
    pub fn get_common_slot_for_peer(&self, peer_address: &[u8; 6], now: u64) -> (state:
        OverlapSlotState)
        requires
            now <= u64::MAX - 2 * CHANNEL_SEQUENCE_DURATION,
        ensures
            state is PeerNotInCache == !self.peer_cache.contains(peer_address@),
            self.peer_cache.contains(peer_address@) ==> exists|index: int|
                {
                    &&& #[trigger] self.peer_cache.is_at(index, peer_address@)
                    &&& self.sync_state.meets_next(
                        self.peer_cache.peers@[index].peer.synchronization_state,
                        now as int,
                        state,
                    )
                },
    {
        self.peer_cache.get_common_slot_for_peer(peer_address, &self.sync_state, now)
    }

    /// Remove all peers from the peer cache.
    pub fn clear_peer_cache(&mut self)
        requires
            old(self).wf(),
        ensures
            final(self).wf(),
            final(self).peer_cache.peers@.len() == 0,
            *final(self) == (CommonResources {
                peer_cache: final(self).peer_cache,
                ..*old(self)
            }),
    {
        self.peer_cache.clear();
    }

    /// Check if the specified peer is in cache.
    pub fn is_peer_cached(&self, peer_address: &[u8; 6]) -> (cached: bool)
        ensures
            cached == self.peer_cache.contains(peer_address@),
    {
        self.peer_cache.contains_key(peer_address)
    }
}

} // verus!

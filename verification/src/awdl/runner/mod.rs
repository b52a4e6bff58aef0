//! The background task of the interface.
use vstd::prelude::*;

pub mod management;
pub mod rx;

use crate::awdl::peer::{wrapped, ElectionState};
use crate::awdl::state::{AwdlState, CommonResources};

verus! {

/// Runner for the AWDL interface.
#[derive(Clone, Copy, Debug)]
pub struct AwdlRunner {
    /// The address of the session that takes place, if any. The link is up while it does.
    pub session: Option<[u8; 6]>,
}

/// What a state that was signaled leads to.
pub open spec fn state_changed(
    before: (AwdlRunner, CommonResources),
    after: (AwdlRunner, CommonResources),
    state: AwdlState,
    now: u64,
) -> bool {
    &&& after.1.dynamic_session_parameters == before.1.dynamic_session_parameters
    &&& if before.0.session is Some {
        after.1.peer_cache.peers@.len() == 0
    } else {
        after.1.peer_cache == before.1.peer_cache
    }
    &&& match state {
        AwdlState::Active { our_address, channel } => {
            &&& after.0.session == Some(our_address)
            &&& after.1.election_state == ElectionState::initial(our_address)
            &&& after.1.sync_state.channel_sequence@ == Seq::new(16, |i: int| channel)
            &&& after.1.sync_state.tsf_epoch_in_us == wrapped(now as int)
        },
        AwdlState::Inactive => {
            &&& after.0.session is None
            &&& after.1.election_state == before.1.election_state
            &&& after.1.sync_state == before.1.sync_state
        },
    }
}

impl AwdlRunner {
    /// Start without a session.
    pub fn new() -> (runner: Self)
        ensures
            runner.session is None,
    {
        Self { session: None }
    }

    /// Change over to a state that was signaled at `now`.
    ///
    /// A session that takes place is ended: its peers are forgotten, so the next session starts of
    /// fresh. An active state starts a session with fresh parameters. Repeatedly setting an
    /// inactive state does no harm.
    pub fn change_state(&mut self, resources: &mut CommonResources, state: AwdlState, now: u64)
        requires
            old(resources).wf(),
        ensures
            final(resources).wf(),
            state_changed(
                (*old(self), *old(resources)),
                (*final(self), *final(resources)),
                state,
                now,
            ),
    {
        if self.session.is_some() {
            resources.clear_peer_cache();
        }
        match state {
            AwdlState::Active { our_address, channel } => {
                resources.initialize_session_parameters_at(channel, our_address, now);
                self.session = Some(our_address);
            },
            AwdlState::Inactive => {
                self.session = None;
            },
        }
    }
}

} // verus!

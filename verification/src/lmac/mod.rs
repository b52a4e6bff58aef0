//! The lower MAC (LMAC).
//!
//! The LMAC's job is to divide access to the medium between all interfaces. This is achieved by
//! allowing an interface to lock the channel on which the stack operates. This prevents the other
//! interfaces from changing the channel. If several interfaces lock the same channel, they all have
//! the lock on the channel and none can change it without the others unlocking the channel
//! beforehand.
//!
//! This alone makes scanning impossible while the channel is locked by another interface. So an
//! interface can ask the others for permission to change the channel and scanning mode for a while:
//! an off channel operation, which they grant or reject.
use vstd::prelude::*;

use crate::radio::{INTERFACE_COUNT, KEY_SLOT_COUNT};
use crypto::{KeySlot, KeySlotManager};

pub mod crypto;

verus! {

/// An error returned by the LMAC.
#[derive(Clone, Copy, Debug, PartialEq, Eq, Structural)]
pub enum LMacError {
    /// The channel is invalid.
    InvalidChannel,
    /// The channel is locked by the other interface.
    ChannelLockedByOtherInterface,
    /// The off channel request was rejected.
    OffChannelRequestRejected,
    /// Another off channel operation is already in progress.
    OffChannelOperationAlreadyInProgress,
}

/// Whether the radio can be tuned to a channel.
pub open spec fn valid_channel(channel: u8) -> bool {
    1 <= channel <= 14
}

/// The status of the channel lock.
pub struct ChannelState {
    /// Which interfaces hold the lock, and on which channel; nothing if none does.
    pub locks: Option<([bool; 4], u8)>,
    /// The interface that performs an off channel operation.
    pub off_channel_operation_interface: Option<usize>,
    /// The channel to which the radio is to be tuned.
    pub channel: u8,
}

impl ChannelState {
    /// If there is a lock, somebody holds it.
    pub open spec fn wf(&self) -> bool {
        self.locks matches Some((interfaces, _)) ==> exists|i: int|
            0 <= i < INTERFACE_COUNT && #[trigger] interfaces@[i]
    }

    /// Whether an interface holds the lock.
    pub open spec fn held_by(&self, interface: int) -> bool {
        self.locks matches Some((interfaces, _)) && 0 <= interface < INTERFACE_COUNT
            && interfaces@[interface]
    }

    /// Whether an interface other than `interface` holds the lock.
    pub open spec fn held_by_other(&self, interface: int) -> bool {
        exists|i: int| i != interface && #[trigger] self.held_by(i)
    }

    /// The locked channel.
    pub open spec fn spec_home_channel(&self) -> Option<u8> {
        match self.locks {
            Some((_, channel)) => Some(channel),
            None => None,
        }
    }

    /// Start with the channel unlocked.
    pub fn new(channel: u8) -> (state: Self)
        ensures
            state.wf(),
            state.locks is None,
            state.off_channel_operation_interface is None,
            state.channel == channel,
    {
        Self { locks: None, off_channel_operation_interface: None, channel }
    }

    /// Tune the radio to a channel, if there is such a channel.
    pub fn set_channel(&mut self, channel: u8) -> (result: Result<(), LMacError>)
        ensures
            result == if valid_channel(channel) {
                Ok(())
            } else {
                Err(LMacError::InvalidChannel)
            },
            *final(self) == (ChannelState {
                channel: if valid_channel(channel) {
                    channel
                } else {
                    old(self).channel
                },
                ..*old(self)
            }),
    {
        if channel < 1 || channel > 14 {
            return Err(LMacError::InvalidChannel);
        }
        self.channel = channel;
        Ok(())
    }

    /// Count the interfaces that hold the lock.
    fn lock_count(interfaces: &[bool; 4]) -> (count: usize)
        ensures
            count == spec_lock_count(interfaces@),
    {
        let mut count: usize = 0;
        if interfaces[0] {
            count = count + 1;
        }
        if interfaces[1] {
            count = count + 1;
        }
        if interfaces[2] {
            count = count + 1;
        }
        if interfaces[3] {
            count = count + 1;
        }
        count
    }

    /// Try to lock the channel for the specified interface.
    ///
    /// Returns `true` if the channel changed. The lock is taken before the radio is tuned, and is
    /// kept where the radio refuses the channel.
    pub fn lock_channel(&mut self, interface: usize, channel: u8) -> (result: Result<
        bool,
        LMacError,
    >)
        requires
            old(self).wf(),
            interface < INTERFACE_COUNT,
        ensures
            final(self).wf(),
            final(self).is_after_lock(*old(self), interface, channel, result),
    {
        let changed = match self.locks {
            Some((mut interfaces, locked_channel)) => {
                let already_locked_by_interface = interfaces[interface];
                let same_channel = locked_channel == channel;
                let interface_lock_count: usize = Self::lock_count(&interfaces);
                proof {
                    lemma_lock_count(*self, interface as int);
                }
                if !same_channel && (!already_locked_by_interface || interface_lock_count > 1) {
                    return Err(LMacError::ChannelLockedByOtherInterface);
                } else if already_locked_by_interface && interface_lock_count == 1 {
                    // The interface has the lock for itself and can freely change the channel.
                    if same_channel && 1 <= channel && channel <= 14 {
                        false
                    } else {
                        self.locks = Some((interfaces, channel));
                        true
                    }
                } else {
                    if !already_locked_by_interface && same_channel {
                        interfaces[interface] = true;
                        self.locks = Some((interfaces, locked_channel));
                        assert(interfaces@[interface as int]);
                    }
                    false
                }
            },
            None => {
                let mut interfaces = [false, false, false, false];
                interfaces[interface] = true;
                assert(interfaces@[interface as int]);
                self.locks = Some((interfaces, channel));
                true
            },
        };
        assert forall|i: int| 0 <= i < INTERFACE_COUNT && i != interface implies #[trigger] self
            .held_by(i) == old(self).held_by(i) by {}
        assert(self.held_by(interface as int));
        if changed {
            match self.set_channel(channel) {
                Ok(()) => Ok(true),
                Err(_) => Err(LMacError::InvalidChannel),
            }
        } else {
            Ok(false)
        }
    }

    /// What trying to lock a channel returns.
    pub open spec fn lock_result(&self, interface: usize, channel: u8) -> Result<bool, LMacError> {
        if self.held_by_other(interface as int) {
            if self.spec_home_channel() == Some(channel) {
                Ok(false)
            } else {
                Err(LMacError::ChannelLockedByOtherInterface)
            }
        } else if valid_channel(channel) {
            Ok(self.spec_home_channel() != Some(channel))
        } else {
            Err(LMacError::InvalidChannel)
        }
    }

    /// What trying to lock a channel leads to.
    pub open spec fn is_after_lock(
        &self,
        before: ChannelState,
        interface: usize,
        channel: u8,
        result: Result<bool, LMacError>,
    ) -> bool {
        &&& result == before.lock_result(interface, channel)
        &&& if result == Err::<bool, LMacError>(LMacError::ChannelLockedByOtherInterface) {
            *self == before
        } else {
            &&& before.held_by(interface as int) && before.spec_home_channel() == Some(channel)
                ==> *self == before
            &&& self.held_by(interface as int)
            &&& self.spec_home_channel() == Some(channel)
            &&& forall|i: int|
                0 <= i < INTERFACE_COUNT && i != interface ==> #[trigger] self.held_by(i)
                    == before.held_by(i)
            &&& self.channel == if result == Ok::<bool, LMacError>(true) {
                channel
            } else {
                before.channel
            }
            &&& self.off_channel_operation_interface == before.off_channel_operation_interface
        }
    }

    /// What trying to lock a channel and to go there leads to. Where the radio refuses the channel,
    /// nobody holds it.
    pub open spec fn is_after_acquire(
        &self,
        before: ChannelState,
        interface: usize,
        channel: u8,
        result: Result<(), LMacError>,
    ) -> bool {
        let locked = before.lock_result(interface, channel);
        &&& result == match locked {
            Ok(_) => Ok::<(), LMacError>(()),
            Err(error) => Err::<(), LMacError>(error),
        }
        &&& if result == Err::<(), LMacError>(LMacError::InvalidChannel) {
            *self == (ChannelState { locks: None, ..before })
        } else {
            self.is_after_lock(before, interface, channel, locked)
        }
    }

    /// Unlock the channel for the specified interface.
    pub fn unlock_channel(&mut self, interface: usize)
        requires
            old(self).wf(),
            interface < INTERFACE_COUNT,
        ensures
            final(self).wf(),
            final(self).is_after_unlock(*old(self), interface),
    {
        match self.locks {
            Some((mut interfaces, channel)) => {
                if interfaces[interface] {
                    interfaces[interface] = false;
                    if !interfaces[0] && !interfaces[1] && !interfaces[2] && !interfaces[3] {
                        self.locks = None;
                    } else {
                        self.locks = Some((interfaces, channel));
                        assert(interfaces@[0] || interfaces@[1] || interfaces@[2] || interfaces@[3]);
                        assert(self.held_by(0) || self.held_by(1) || self.held_by(2)
                            || self.held_by(3));
                    }
                }
            },
            None => {},
        }
        assert forall|i: int| 0 <= i < INTERFACE_COUNT implies #[trigger] self.held_by(i) == (old(
            self,
        ).held_by(i) && i != interface) by {}
        assert(self.locks is None == !old(self).held_by_other(interface as int)) by {
            if self.locks is Some {
                let interfaces = self.locks->Some_0.0@;
                let holder = choose|i: int| 0 <= i < INTERFACE_COUNT && #[trigger] interfaces[i];
                assert(self.held_by(holder));
                assert(old(self).held_by(holder));
            } else {
                assert forall|i: int| i != interface implies !#[trigger] old(self).held_by(i) by {
                    if old(self).held_by(i) {
                        assert(self.held_by(i));
                    }
                }
            }
        }
    }

    /// What unlocking leads to: the lock of one interface is gone, and with the last one the locked
    /// channel.
    pub open spec fn is_after_unlock(&self, before: ChannelState, interface: usize) -> bool {
        &&& forall|i: int|
            0 <= i < INTERFACE_COUNT ==> #[trigger] self.held_by(i) == (before.held_by(i) && i
                != interface)
        &&& self.spec_home_channel() == if before.held_by_other(interface as int) {
            before.spec_home_channel()
        } else {
            None
        }
        &&& self.off_channel_operation_interface == before.off_channel_operation_interface
        &&& self.channel == before.channel
    }

    /// Check whether an off channel operation is in progress.
    pub fn off_channel_operation_in_progress(&self) -> (in_progress: bool)
        ensures
            in_progress == self.off_channel_operation_interface is Some,
    {
        self.off_channel_operation_interface.is_some()
    }
}

/// How many interfaces hold the lock.
spec fn spec_lock_count(interfaces: Seq<bool>) -> int {
    (if interfaces[0] { 1int } else { 0 }) + (if interfaces[1] { 1int } else { 0 }) + (
    if interfaces[2] { 1int } else { 0 }) + (if interfaces[3] { 1int } else { 0 })
}

/// The count of locks tells whether another interface holds one.
proof fn lemma_lock_count(state: ChannelState, interface: int)
    requires
        state.wf(),
        state.locks is Some,
        0 <= interface < INTERFACE_COUNT,
    ensures
        state.held_by(interface) ==> (spec_lock_count(state.locks->Some_0.0@) > 1)
            == state.held_by_other(interface),
        state.held_by(interface) ==> spec_lock_count(state.locks->Some_0.0@) >= 1,
        !state.held_by(interface) ==> state.held_by_other(interface),
{
    let interfaces = state.locks->Some_0.0@;
    assert(state.held_by(0) == interfaces[0]);
    assert(state.held_by(1) == interfaces[1]);
    assert(state.held_by(2) == interfaces[2]);
    assert(state.held_by(3) == interfaces[3]);
    let holder = choose|i: int| 0 <= i < INTERFACE_COUNT && #[trigger] interfaces[i];
    assert(state.held_by(holder));
    if state.held_by(interface) && state.held_by_other(interface) {
        let other = choose|i: int| i != interface && #[trigger] state.held_by(i);
        assert(0 <= other < 4);
    }
}

/// Nobody holds the channel after its only holder has unlocked it.
proof fn lemma_sole_holder_unlocked(before: ChannelState, after: ChannelState, interface: usize)
    requires
        interface < INTERFACE_COUNT,
        !before.held_by_other(interface as int),
        after.wf(),
        after.is_after_unlock(before, interface),
    ensures
        after.locks is None,
{
    assert forall|i: int| !#[trigger] after.held_by(i) by {
        if i != interface && 0 <= i < INTERFACE_COUNT {
            assert(!before.held_by(i));
        }
    }
    if after.locks is Some {
        let interfaces = after.locks->Some_0.0@;
        let holder = choose|i: int| 0 <= i < INTERFACE_COUNT && #[trigger] interfaces[i];
        assert(after.held_by(holder));
    }
}

/// Unlocking undoes a lock that the interface took: everybody holds what they held before.
pub proof fn unlock_undoes_lock(
    before: ChannelState,
    locked: ChannelState,
    unlocked: ChannelState,
    interface: usize,
    channel: u8,
    result: Result<bool, LMacError>,
)
    requires
        before.wf(),
        unlocked.wf(),
        interface < INTERFACE_COUNT,
        !before.held_by(interface as int),
        locked.is_after_lock(before, interface, channel, result),
        result is Ok,
        unlocked.is_after_unlock(locked, interface),
    ensures
        forall|i: int|
            0 <= i < INTERFACE_COUNT ==> #[trigger] unlocked.held_by(i) == before.held_by(i),
        unlocked.spec_home_channel() == before.spec_home_channel(),
{
    assert forall|i: int| 0 <= i < INTERFACE_COUNT implies #[trigger] unlocked.held_by(i)
        == before.held_by(i) by {
        assert(locked.held_by(i) == before.held_by(i) || i == interface);
    }
    if before.held_by_other(interface as int) {
        let other = choose|i: int| i != interface && #[trigger] before.held_by(i);
        assert(locked.held_by(other));
    } else {
        assert forall|i: int| i != interface implies !#[trigger] locked.held_by(i) by {
            assert(!before.held_by(i));
        }
        if before.locks is Some {
            let interfaces = before.locks->Some_0.0@;
            let holder = choose|i: int| 0 <= i < INTERFACE_COUNT && #[trigger] interfaces[i];
            assert(before.held_by(holder));
        }
    }
}

/// Nobody can move the radio off a channel that another interface has locked: taking the lock
/// either fails or leaves the radio where it is.
pub proof fn locked_channel_is_kept(
    before: ChannelState,
    after: ChannelState,
    interface: usize,
    channel: u8,
    result: Result<bool, LMacError>,
)
    requires
        before.wf(),
        interface < INTERFACE_COUNT,
        before.held_by_other(interface as int),
        after.is_after_lock(before, interface, channel, result),
    ensures
        after.channel == before.channel,
        after.spec_home_channel() == before.spec_home_channel(),
        result != Ok::<bool, LMacError>(true),
{
}

/// State of the LMAC that all interfaces share.
pub struct SharedLMacState {
    /// The current channel state.
    pub channel_state: ChannelState,
    /// The key slots.
    pub key_slot_manager: KeySlotManager,
}

impl SharedLMacState {
    /// Start with the channel unlocked and all key slots free.
    pub fn new(channel: u8) -> (state: Self)
        ensures
            state.channel_state.wf(),
            state.channel_state.locks is None,
            state.channel_state.off_channel_operation_interface is None,
            state.channel_state.channel == channel,
            forall|slot: int| 0 <= slot < KEY_SLOT_COUNT ==> state.key_slot_manager.is_free(slot),
            state.key_slot_manager.commands@.len() == 0,
    {
        Self { channel_state: ChannelState::new(channel), key_slot_manager: KeySlotManager::new() }
    }
}

/// An off channel operation.
///
/// While it lasts, the interface may change the channel.
#[derive(Debug)]
pub struct OffChannelOperation {
    /// The interface that performs the operation.
    pub interface: usize,
    /// The channel that was locked when the operation began.
    pub previously_locked_channel: Option<u8>,
}

impl OffChannelOperation {
    /// Go to a channel.
    pub fn set_channel(&mut self, state: &mut SharedLMacState, channel: u8) -> (result: Result<
        (),
        LMacError,
    >)
        ensures
            *final(self) == *old(self),
            result == if valid_channel(channel) {
                Ok(())
            } else {
                Err(LMacError::InvalidChannel)
            },
            *final(state) == (SharedLMacState {
                channel_state: ChannelState {
                    channel: if valid_channel(channel) {
                        channel
                    } else {
                        old(state).channel_state.channel
                    },
                    ..old(state).channel_state
                },
                ..*old(state)
            }),
    {
        state.channel_state.set_channel(channel)
    }

    /// What the end of the operation leads to.
    pub open spec fn spec_complete(&self, state: SharedLMacState) -> SharedLMacState {
        SharedLMacState {
            channel_state: ChannelState {
                off_channel_operation_interface: None,
                channel: match self.previously_locked_channel {
                    Some(channel) if valid_channel(channel) => channel,
                    _ => state.channel_state.channel,
                },
                ..state.channel_state
            },
            ..state
        }
    }

    /// End the operation, and go back to the channel that was locked when it began.
    pub fn complete(self, state: &mut SharedLMacState)
        ensures
            *final(state) == self.spec_complete(*old(state)),
    {
        if let Some(channel) = self.previously_locked_channel {
            let _ = state.channel_state.set_channel(channel);
        }
        state.channel_state.off_channel_operation_interface = None;
    }
}

/// An interface bringup operation.
///
/// If it is not completed but given up, the channel is unlocked again.
#[derive(Debug)]
pub struct InterfaceBringupOperation {
    /// The interface that is brought up.
    pub interface: usize,
}

impl InterfaceBringupOperation {
    /// Mark the interface bringup as completed, without unlocking the channel.
    pub fn complete(self, state: &mut SharedLMacState)
        ensures
            *final(state) == *old(state),
    {
    }

    /// Give up the interface bringup, and unlock the channel.
    pub fn abort(self, state: &mut SharedLMacState)
        requires
            old(state).channel_state.wf(),
            self.interface < INTERFACE_COUNT,
        ensures
            final(state).channel_state.wf(),
            final(state).channel_state.is_after_unlock(old(state).channel_state, self.interface),
            final(state).key_slot_manager == old(state).key_slot_manager,
    {
        state.channel_state.unlock_channel(self.interface);
    }
}

/// Control over one interface.
#[derive(Debug)]
pub struct LMacInterfaceControl {
    /// The interface.
    pub interface: usize,
}

/// Who has to be asked before the channel is left: everybody that holds it.
pub open spec fn off_channel_asked(
    state: SharedLMacState,
    requests: Result<[bool; 4], LMacError>,
) -> bool {
    &&& requests is Err == state.channel_state.off_channel_operation_interface is Some
    &&& requests matches Err(error) ==> error == LMacError::OffChannelOperationAlreadyInProgress
    &&& requests matches Ok(requests) ==> forall|i: int|
        0 <= i < INTERFACE_COUNT ==> #[trigger] requests@[i] == state.channel_state.held_by(i)
}

/// What the answers lead to: the channel may be left if nobody refuses.
pub open spec fn off_channel_begun(
    control: LMacInterfaceControl,
    before: SharedLMacState,
    after: SharedLMacState,
    granted: Seq<bool>,
    operation: Result<OffChannelOperation, LMacError>,
) -> bool {
    &&& operation is Ok == (granted[0] && granted[1] && granted[2] && granted[3])
    &&& operation matches Ok(operation) ==> {
        &&& operation == (OffChannelOperation {
            interface: control.interface,
            previously_locked_channel: before.channel_state.spec_home_channel(),
        })
        &&& after == (SharedLMacState {
            channel_state: ChannelState {
                off_channel_operation_interface: Some(control.interface),
                ..before.channel_state
            },
            ..before
        })
    }
    &&& operation matches Err(error) ==> {
        &&& error == LMacError::OffChannelRequestRejected
        &&& after == before
    }
}

impl LMacInterfaceControl {
    /// The interface exists.
    pub open spec fn wf(&self) -> bool {
        self.interface < INTERFACE_COUNT
    }

    /// Begin an interface bringup operation.
    ///
    /// This allows giving up a connection bringup and is otherwise the same as
    /// [LMacInterfaceControl::lock_channel]. It does not ensure that no off channel operation is
    /// currently in progress.
    pub fn begin_interface_bringup_operation(&self, state: &mut SharedLMacState, channel: u8)
        -> (operation: Result<InterfaceBringupOperation, LMacError>)
        requires
            self.wf(),
            old(state).channel_state.wf(),
        ensures
            final(state).channel_state.wf(),
            final(state).key_slot_manager == old(state).key_slot_manager,
            final(state).channel_state.is_after_acquire(
                old(state).channel_state,
                self.interface,
                channel,
                match operation {
                    Ok(_) => Ok(()),
                    Err(error) => Err(error),
                },
            ),
            operation matches Ok(operation) ==> operation.interface == self.interface,
    {
        match self.lock_channel(state, channel) {
            Ok(()) => Ok(InterfaceBringupOperation { interface: self.interface }),
            Err(error) => Err(error),
        }
    }

    /// Try to acquire the channel lock for this interface and go to the specified channel.
    ///
    /// If there is no such channel, the lock is released again.
    pub fn lock_channel(&self, state: &mut SharedLMacState, channel: u8) -> (result: Result<
        (),
        LMacError,
    >)
        requires
            self.wf(),
            old(state).channel_state.wf(),
        ensures
            final(state).channel_state.wf(),
            final(state).key_slot_manager == old(state).key_slot_manager,
            final(state).channel_state.is_after_acquire(
                old(state).channel_state,
                self.interface,
                channel,
                result,
            ),
            result == Err::<(), LMacError>(LMacError::InvalidChannel) ==> !final(state).channel_state.held_by(
                self.interface as int,
            ),
    {
        match state.channel_state.lock_channel(self.interface, channel) {
            Ok(_) => Ok(()),
            Err(LMacError::InvalidChannel) => {
                let ghost locked = state.channel_state;
                self.unlock_channel(state);
                proof {
                    lemma_sole_holder_unlocked(locked, state.channel_state, self.interface);
                }
                Err(LMacError::InvalidChannel)
            },
            Err(error) => Err(error),
        }
    }

    /// Check if this interface holds the channel lock.
    pub fn holds_channel(&self, state: &SharedLMacState) -> (held: bool)
        requires
            self.wf(),
        ensures
            held == state.channel_state.held_by(self.interface as int),
    {
        match &state.channel_state.locks {
            Some((interfaces, _)) => interfaces[self.interface],
            None => false,
        }
    }

    /// Release the channel lock from this interface.
    pub fn unlock_channel(&self, state: &mut SharedLMacState)
        requires
            self.wf(),
            old(state).channel_state.wf(),
        ensures
            final(state).channel_state.wf(),
            final(state).channel_state.is_after_unlock(old(state).channel_state, self.interface),
            final(state).key_slot_manager == old(state).key_slot_manager,
    {
        state.channel_state.unlock_channel(self.interface);
    }

    /// Find out whom to ask before an off channel operation: all interfaces that hold the lock.
    pub fn off_channel_requests(&self, state: &SharedLMacState) -> (requests: Result<
        [bool; 4],
        LMacError,
    >)
        ensures
            off_channel_asked(*state, requests),
    {
        if state.channel_state.off_channel_operation_in_progress() {
            return Err(LMacError::OffChannelOperationAlreadyInProgress);
        }
        match state.channel_state.locks {
            Some((locks, _)) => Ok(locks),
            None => Ok([false, false, false, false]),
        }
    }

    /// Start an off channel operation, unless somebody who was asked rejected it.
    ///
    /// `granted` holds the answer of every interface; those that were not asked count as granting.
    pub fn try_begin_interface_off_channel_operation(
        &self,
        state: &mut SharedLMacState,
        granted: [bool; 4],
    ) -> (operation: Result<OffChannelOperation, LMacError>)
        ensures
            off_channel_begun(*self, *old(state), *final(state), granted@, operation),
    {
        let mut i: usize = 0;
        while i < INTERFACE_COUNT
            invariant
                i <= INTERFACE_COUNT,
                *state == *old(state),
                forall|j: int| 0 <= j < i ==> granted@[j],
            decreases INTERFACE_COUNT - i,
        {
            if !granted[i] {
                assert(!granted@[i as int]);
                return Err(LMacError::OffChannelRequestRejected);
            }
            i = i + 1;
        }
        assert(granted@[0] && granted@[1] && granted@[2] && granted@[3]);
        state.channel_state.off_channel_operation_interface = Some(self.interface);
        Ok(
            OffChannelOperation {
                interface: self.interface,
                previously_locked_channel: self.home_channel(state),
            },
        )
    }

    /// Check if an off channel operation is in progress.
    pub fn off_channel_operation_in_progress(&self, state: &SharedLMacState) -> (in_progress: bool)
        ensures
            in_progress == state.channel_state.off_channel_operation_interface is Some,
    {
        state.channel_state.off_channel_operation_in_progress()
    }

    /// Get the interface currently performing an off channel operation.
    pub fn off_channel_operation_interface(&self, state: &SharedLMacState) -> (interface: Option<
        usize,
    >)
        ensures
            interface == state.channel_state.off_channel_operation_interface,
    {
        state.channel_state.off_channel_operation_interface
    }

    /// Get the currently locked channel.
    pub fn home_channel(&self, state: &SharedLMacState) -> (channel: Option<u8>)
        ensures
            channel == state.channel_state.spec_home_channel(),
    {
        match state.channel_state.locks {
            Some((_, channel)) => Some(channel),
            None => None,
        }
    }

    /// Get the factory MAC address for this interface.
    ///
    /// This is the base MAC address of the chip with the interface index added to the last octet.
    pub fn get_factory_mac_for_interface(&self, base_mac: [u8; 6]) -> (mac: [u8; 6])
        requires
            self.wf(),
            base_mac@[5] + self.interface <= u8::MAX,
        ensures
            mac@ == base_mac@.update(5, (base_mac@[5] + self.interface) as u8),
    {
        let mut mac = base_mac;
        mac[5] = mac[5] + self.interface as u8;
        mac
    }

    /// Attempt to acquire a key slot: the first that is free.
    pub fn acquire_key_slot(&self, state: &mut SharedLMacState) -> (slot: Option<KeySlot>)
        requires
            self.wf(),
        ensures
            final(state).channel_state == old(state).channel_state,
            final(state).key_slot_manager.commands@ == old(state).key_slot_manager.commands@,
            slot is None == (forall|i: int|
                0 <= i < KEY_SLOT_COUNT ==> !old(state).key_slot_manager.is_free(i)),
            slot is None ==> *final(state) == *old(state),
            slot matches Some(slot) ==> {
                &&& slot.wf()
                &&& slot.interface == self.interface
                &&& old(state).key_slot_manager.is_free(slot.key_slot as int)
                &&& forall|i: int| 0 <= i < slot.key_slot ==> !old(state).key_slot_manager.is_free(i)
                &&& final(state).key_slot_manager.lacks(
                    old(state).key_slot_manager,
                    slot.key_slot as int,
                )
            },
    {
        match state.key_slot_manager.acquire_key_slot() {
            Some(key_slot) => Some(
                KeySlot { key_slot: key_slot as u8, interface: self.interface as u8 },
            ),
            None => None,
        }
    }
}

/// An off channel operation that comes to its end leaves the radio on the channel that was locked
/// when it began, wherever it went meanwhile.
pub proof fn off_channel_operation_returns_home(
    begun: SharedLMacState,
    ended: SharedLMacState,
    operation: OffChannelOperation,
    home: u8,
)
    requires
        begun.channel_state.spec_home_channel() == Some(home),
        valid_channel(home),
        operation.previously_locked_channel == begun.channel_state.spec_home_channel(),
    ensures
        operation.spec_complete(ended).channel_state.channel == home,
        operation.spec_complete(ended).channel_state.off_channel_operation_interface is None,
        operation.spec_complete(ended).channel_state.locks == ended.channel_state.locks,
{
}

/// An off channel operation that began while no channel was locked leaves the radio where it is, and
/// lets others begin theirs. It never touches locks or keys.
pub proof fn off_channel_operations_touch_no_locks(
    ended: SharedLMacState,
    operation: OffChannelOperation,
)
    ensures
        operation.previously_locked_channel is None ==> operation.spec_complete(
            ended,
        ).channel_state.channel == ended.channel_state.channel,
        operation.spec_complete(ended).channel_state.off_channel_operation_interface is None,
        operation.spec_complete(ended).channel_state.locks == ended.channel_state.locks,
        operation.spec_complete(ended).key_slot_manager == ended.key_slot_manager,
{
}

/// Locking goes by who holds the channel. A channel that nobody else holds is taken, and the radio goes
/// there, if there is such a channel; one that others hold is shared where they hold the same one, and
/// refused where they hold another.
pub proof fn channels_are_shared_or_refused(
    before: ChannelState,
    after: ChannelState,
    interface: usize,
    channel: u8,
    result: Result<bool, LMacError>,
)
    requires
        before.wf(),
        interface < INTERFACE_COUNT,
        after.is_after_lock(before, interface, channel, result),
    ensures
        before.locks is None && 1 <= channel <= 14 ==> {
            &&& result == Ok::<bool, LMacError>(true)
            &&& after.channel == channel
            &&& after.locks matches Some((interfaces, locked))
            &&& locked == channel
            &&& forall|i: int| 0 <= i < 4 ==> #[trigger] interfaces@[i] == (i == interface)
        },
        before.locks matches Some((interfaces, locked)) ==> {
            let others = exists|i: int| 0 <= i < 4 && i != interface && #[trigger] interfaces@[i];
            &&& others && locked == channel ==> {
                &&& result == Ok::<bool, LMacError>(false)
                &&& after.channel == before.channel
                &&& after.locks matches Some((kept, still_locked))
                &&& still_locked == channel
                &&& forall|i: int|
                    0 <= i < 4 ==> #[trigger] kept@[i] == (interfaces@[i] || i == interface)
            }
            &&& others && locked != channel ==> {
                &&& result == Err::<bool, LMacError>(LMacError::ChannelLockedByOtherInterface)
                &&& after == before
            }
            &&& !others && locked == channel && 1 <= channel <= 14 ==> {
                &&& result == Ok::<bool, LMacError>(false)
                &&& after == before
            }
            &&& !others && locked != channel && 1 <= channel <= 14 ==> {
                &&& result == Ok::<bool, LMacError>(true)
                &&& after.channel == channel
                &&& after.locks matches Some((kept, now_locked))
                &&& now_locked == channel
                &&& forall|i: int| 0 <= i < 4 ==> #[trigger] kept@[i] == (i == interface)
            }
        },
        !(1 <= channel <= 14) ==> after.channel == before.channel,
{
    assert(forall|i: int| 0 <= i < INTERFACE_COUNT ==> #[trigger] after.held_by(i) == (after.locks
        is Some && after.locks->Some_0.0@[i]));
    if let Some((interfaces, _)) = before.locks {
        let others = exists|i: int| 0 <= i < 4 && i != interface && #[trigger] interfaces@[i];
        if others {
            let other = choose|i: int| 0 <= i < 4 && i != interface && #[trigger] interfaces@[i];
            assert(before.held_by(other));
        } else {
            let holder = choose|i: int| 0 <= i < INTERFACE_COUNT && #[trigger] interfaces@[i];
            assert(before.held_by(holder));
            assert forall|i: int| i != interface implies !#[trigger] before.held_by(i) by {
                if before.held_by(i) {
                    assert(interfaces@[i]);
                }
            }
        }
        if let Some((kept, _)) = after.locks {
            assert forall|i: int| 0 <= i < 4 implies #[trigger] kept@[i] == after.held_by(i) by {}
            assert forall|i: int| 0 <= i < 4 && i != interface implies #[trigger] kept@[i]
                == interfaces@[i] by {
                assert(after.held_by(i) == before.held_by(i));
            }
            assert(result is Ok ==> after.held_by(interface as int));
        }
    } else {
        if let Some((kept, _)) = after.locks {
            assert forall|i: int| 0 <= i < 4 && i != interface implies !#[trigger] kept@[i] by {
                assert(after.held_by(i) == before.held_by(i));
            }
            assert(after.held_by(interface as int));
        }
    }
}

/// Who acquires a channel holds it, and whoever is refused holds what they held before, but for a
/// channel that does not exist: then the lock is given back.
pub proof fn acquiring_a_channel_locks_it(
    before: ChannelState,
    after: ChannelState,
    interface: usize,
    channel: u8,
    result: Result<(), LMacError>,
)
    requires
        before.wf(),
        interface < INTERFACE_COUNT,
        after.is_after_acquire(before, interface, channel, result),
    ensures
        result is Ok ==> {
            &&& after.locks matches Some((interfaces, locked))
            &&& interfaces@[interface as int]
            &&& locked == channel
        },
        result == Err::<(), LMacError>(LMacError::ChannelLockedByOtherInterface) ==> after == before,
        result == Err::<(), LMacError>(LMacError::InvalidChannel) ==> {
            &&& after.locks is None
            &&& after.channel == before.channel
        },
        before.locks is None && 1 <= channel <= 14 ==> result is Ok && after.channel == channel,
        before.locks is None && !(1 <= channel <= 14) ==> result is Err,
        result is Err ==> result == Err::<(), LMacError>(LMacError::ChannelLockedByOtherInterface)
            || result == Err::<(), LMacError>(LMacError::InvalidChannel),
{
    if result is Ok {
        assert(after.held_by(interface as int));
    }
}

/// Unlocking takes the lock of one interface, leaves those of the others with their channel, and does
/// not move the radio.
pub proof fn unlocking_leaves_the_others(before: ChannelState, after: ChannelState, interface: usize)
    requires
        before.wf(),
        after.wf(),
        interface < INTERFACE_COUNT,
        after.is_after_unlock(before, interface),
    ensures
        after.channel == before.channel,
        after.locks matches Some((interfaces, channel)) ==> {
            &&& before.locks matches Some((held, locked))
            &&& channel == locked
            &&& !interfaces@[interface as int]
            &&& forall|i: int|
                0 <= i < 4 && i != interface ==> #[trigger] interfaces@[i] == held@[i]
        },
        after.locks is None ==> forall|i: int|
            0 <= i < 4 && i != interface ==> !(before.locks is Some
                && #[trigger] before.locks->Some_0.0@[i]),
{
    if let Some((interfaces, _)) = after.locks {
        let holder = choose|i: int| 0 <= i < INTERFACE_COUNT && #[trigger] interfaces@[i];
        assert(after.held_by(holder));
        assert(before.held_by(holder));
        assert(after.held_by(interface as int) == interfaces@[interface as int]);
        assert forall|i: int| 0 <= i < 4 && i != interface implies #[trigger] interfaces@[i]
            == before.locks->Some_0.0@[i] by {
            assert(after.held_by(i) == before.held_by(i));
        }
    } else {
        assert forall|i: int| 0 <= i < 4 && i != interface implies !(before.locks is Some
            && #[trigger] before.locks->Some_0.0@[i]) by {
            assert(after.held_by(i) == (before.held_by(i) && i != interface));
        }
    }
}

/// The channel is left only if everybody who holds it agrees, and nobody else is on another channel.
/// Locks and keys stay, the operation remembers the locked channel, and its end leads back there.
pub proof fn channels_are_left_by_consent(
    control: LMacInterfaceControl,
    before: SharedLMacState,
    after: SharedLMacState,
    requests: Result<[bool; 4], LMacError>,
    granted: Seq<bool>,
    operation: Result<OffChannelOperation, LMacError>,
    ended: SharedLMacState,
)
    requires
        granted.len() == 4,
        off_channel_asked(before, requests),
        off_channel_begun(control, before, after, granted, operation),
    ensures
        before.channel_state.off_channel_operation_interface is Some ==> requests == Err::<
            [bool; 4],
            LMacError,
        >(LMacError::OffChannelOperationAlreadyInProgress),
        before.channel_state.off_channel_operation_interface is None ==> {
            &&& requests matches Ok(asked)
            &&& before.channel_state.locks matches Some((interfaces, _)) ==> asked@
                == interfaces@
            &&& before.channel_state.locks is None ==> forall|i: int|
                0 <= i < 4 ==> !#[trigger] asked@[i]
        },
        (forall|i: int| 0 <= i < 4 ==> #[trigger] granted[i]) ==> {
            &&& operation matches Ok(begun)
            &&& begun.interface == control.interface
            &&& after.channel_state.off_channel_operation_interface == Some(control.interface)
            &&& after.channel_state.locks == before.channel_state.locks
            &&& after.channel_state.channel == before.channel_state.channel
            &&& after.key_slot_manager == before.key_slot_manager
            &&& before.channel_state.locks matches Some((_, home)) ==> (1 <= home <= 14
                ==> begun.spec_complete(ended).channel_state.channel == home)
        },
        forall|i: int|
            0 <= i < 4 && !(#[trigger] granted[i]) ==> operation == Err::<
                OffChannelOperation,
                LMacError,
            >(LMacError::OffChannelRequestRejected) && after == before,
{
    assert((forall|i: int| 0 <= i < 4 ==> #[trigger] granted[i]) <==> granted[0] && granted[1]
        && granted[2] && granted[3]);
    if let Some((interfaces, _)) = before.channel_state.locks {
        if let Ok(asked) = requests {
            assert forall|i: int| 0 <= i < 4 implies asked@[i] == interfaces@[i] by {
                assert(asked@[i] == before.channel_state.held_by(i));
            }
            assert(asked@ =~= interfaces@);
        }
    }
}

} // verus!

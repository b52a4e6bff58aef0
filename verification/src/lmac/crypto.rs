//! Cryptographic key slots.
//!
//! The radio has a fixed number of slots for keys. The manager hands them out and keeps the list
//! of changes that the radio has yet to be told of.
use vstd::prelude::*;

use crate::radio::{INTERFACE_COUNT, KEY_SLOT_COUNT};

verus! {

/// The kind of traffic a key is used for.
#[derive(Clone, Copy, Debug, PartialEq, Eq, Structural)]
pub enum KeyType {
    /// Traffic with one station.
    Pairwise,
    /// Traffic with a group of stations.
    Group,
}

/// A key for CCMP and how it is used.
#[derive(Clone, Copy, Debug)]
pub struct AesCipherParameters {
    /// The key.
    pub key: [u8; 16],
    /// What the key is used for.
    pub key_type: KeyType,
    /// Whether management frames are protected.
    pub mfp_enabled: bool,
    /// Whether signaling and payload are protected.
    pub spp_enabled: bool,
}

/// An error of a key slot operation.
#[derive(Clone, Copy, Debug, PartialEq, Eq, Structural)]
pub enum CryptoError {
    /// The slot, interface or key ID does not exist.
    OutOfBounds,
    /// The address belongs to a group.
    MulticastBitSet,
}

/// A change of a key slot.
#[derive(Clone, Copy, Debug)]
pub enum KeyCommand {
    /// Put a key into the slot.
    Install {
        /// The slot.
        key_slot: u8,
        /// The interface that uses the key.
        interface: u8,
        /// Identifier of the key on the air.
        key_id: u8,
        /// Address of the peer.
        address: [u8; 6],
        /// The key.
        parameters: AesCipherParameters,
    },
    /// Clear the slot.
    Clear {
        /// The slot.
        key_slot: u8,
    },
}

/// A cryptographic key slot.
#[derive(Debug)]
pub struct KeySlot {
    /// Index of the slot.
    pub key_slot: u8,
    /// The interface that acquired the slot.
    pub interface: u8,
}

impl KeySlot {
    /// Whether slot and interface exist.
    pub open spec fn wf(&self) -> bool {
        self.key_slot < KEY_SLOT_COUNT && self.interface < INTERFACE_COUNT
    }

    /// Get the underlying hardware key slot.
    pub fn key_slot(&self) -> (key_slot: usize)
        ensures
            key_slot == self.key_slot,
    {
        self.key_slot as usize
    }

    /// Set the key used by this slot.
    pub fn set_key(
        &mut self,
        manager: &mut KeySlotManager,
        key_id: u8,
        address: [u8; 6],
        parameters: AesCipherParameters,
    ) -> (result: Result<(), CryptoError>)
        ensures
            *final(self) == *old(self),
            final(manager).key_slot_state == old(manager).key_slot_state,
            result == key_result(*old(self), key_id, address@),
            result is Ok ==> final(manager).commands@ == old(manager).commands@.push(
                KeyCommand::Install {
                    key_slot: old(self).key_slot,
                    interface: old(self).interface,
                    key_id,
                    address,
                    parameters,
                },
            ),
            result is Err ==> final(manager).commands@ == old(manager).commands@,
    {
        if self.key_slot as usize >= KEY_SLOT_COUNT || self.interface as usize >= INTERFACE_COUNT
            || key_id >= 4 {
            return Err(CryptoError::OutOfBounds);
        }
        if address[0] & 1 != 0 {
            return Err(CryptoError::MulticastBitSet);
        }
        manager.commands.push(
            KeyCommand::Install {
                key_slot: self.key_slot,
                interface: self.interface,
                key_id,
                address,
                parameters,
            },
        );
        Ok(())
    }
}

/// Whether a key can be put into `slot`, or why not.
pub open spec fn key_result(slot: KeySlot, key_id: u8, address: Seq<u8>) -> Result<
    (),
    CryptoError,
> {
    if !slot.wf() || key_id >= 4 {
        Err(CryptoError::OutOfBounds)
    } else if address[0] & 1 != 0 {
        Err(CryptoError::MulticastBitSet)
    } else {
        Ok(())
    }
}

/// Whether bit `slot` of `state` is set.
pub open spec fn slot_bit(state: u32, slot: int) -> bool {
    state & (1u32 << (slot as u32)) != 0
}

/// Hands out key slots.
pub struct KeySlotManager {
    /// A bit mask indicating which slots are free.
    pub key_slot_state: u32,
    /// Changes that the radio has yet to be told of, oldest first.
    pub commands: Vec<KeyCommand>,
}

/// Clearing one bit leaves the others.
proof fn lemma_clear_bit(state: u32, i: u32, j: u32)
    requires
        i < 32,
        j < 32,
    ensures
        slot_bit(state & !(1u32 << i), j as int) == (slot_bit(state, j as int) && i != j),
{
    assert(i < 32 && j < 32 ==> ((state & !(1u32 << i)) & (1u32 << j) != 0) == ((state & (1u32 << j)
        != 0) && i != j)) by (bit_vector);
}

/// Setting one bit leaves the others.
proof fn lemma_set_bit(state: u32, i: u32, j: u32)
    requires
        i < 32,
        j < 32,
    ensures
        slot_bit(state | (1u32 << i), j as int) == (slot_bit(state, j as int) || i == j),
{
    assert(i < 32 && j < 32 ==> ((state | (1u32 << i)) & (1u32 << j) != 0) == ((state & (1u32 << j)
        != 0) || i == j)) by (bit_vector);
}

impl KeySlotManager {
    /// Whether nobody holds a slot.
    pub open spec fn is_free(&self, slot: int) -> bool {
        slot_bit(self.key_slot_state, slot)
    }

    /// Whether the free slots are those of `before` but for `key_slot`.
    pub open spec fn lacks(&self, before: KeySlotManager, key_slot: int) -> bool {
        forall|slot: int|
            0 <= slot < KEY_SLOT_COUNT ==> self.is_free(slot) == (before.is_free(slot) && slot
                != key_slot)
    }

    /// Whether the free slots are those of `before` and `key_slot`.
    pub open spec fn regains(&self, before: KeySlotManager, key_slot: int) -> bool {
        forall|slot: int|
            0 <= slot < KEY_SLOT_COUNT ==> self.is_free(slot) == (before.is_free(slot) || slot
                == key_slot)
    }

    /// Create a new key slot manager.
    pub fn new() -> (manager: Self)
        ensures
            forall|slot: int| 0 <= slot < KEY_SLOT_COUNT ==> manager.is_free(slot),
            manager.commands@ == Seq::<KeyCommand>::empty(),
    {
        assert forall|slot: int| 0 <= slot < KEY_SLOT_COUNT implies slot_bit(u32::MAX, slot) by {
            let i = slot as u32;
            assert(i < 32 ==> 0xffff_ffffu32 & (1u32 << i) != 0) by (bit_vector);
        }
        Self { key_slot_state: u32::MAX, commands: Vec::new() }
    }

    /// Acquire a free key slot: the first one there is.
    pub fn acquire_key_slot(&mut self) -> (key_slot: Option<usize>)
        ensures
            final(self).commands@ == old(self).commands@,
            key_slot is None == (forall|slot: int|
                0 <= slot < KEY_SLOT_COUNT ==> !old(self).is_free(slot)),
            key_slot is None ==> *final(self) == *old(self),
            key_slot matches Some(key_slot) ==> {
                &&& key_slot < KEY_SLOT_COUNT
                &&& old(self).is_free(key_slot as int)
                &&& forall|slot: int| 0 <= slot < key_slot ==> !old(self).is_free(slot)
                &&& final(self).lacks(*old(self), key_slot as int)
            },
    {
        let mut i: usize = 0;
        while i < KEY_SLOT_COUNT
            invariant
                i <= KEY_SLOT_COUNT,
                *self == *old(self),
                forall|slot: int| 0 <= slot < i ==> !old(self).is_free(slot),
            decreases KEY_SLOT_COUNT - i,
        {
            if self.key_slot_state & (1u32 << (i as u32)) != 0 {
                let mask: u32 = 1u32 << (i as u32);
                self.key_slot_state = self.key_slot_state & !mask;
                proof {
                    assert(old(self).is_free(i as int));
                    assert forall|slot: int| 0 <= slot < KEY_SLOT_COUNT implies self.is_free(slot)
                        == (old(self).is_free(slot) && slot != i) by {
                        lemma_clear_bit(old(self).key_slot_state, i as u32, slot as u32);
                    }
                }
                return Some(i);
            }
            i = i + 1;
        }
        None
    }

    /// Release a key slot and clear it.
    pub fn release_key_slot(&mut self, key_slot: usize)
        requires
            key_slot < KEY_SLOT_COUNT,
        ensures
            final(self).regains(*old(self), key_slot as int),
            final(self).commands@ == old(self).commands@.push(
                KeyCommand::Clear { key_slot: key_slot as u8 },
            ),
    {
        let mask: u32 = 1u32 << (key_slot as u32);
        self.key_slot_state = self.key_slot_state | mask;
        self.commands.push(KeyCommand::Clear { key_slot: key_slot as u8 });
        proof {
            assert forall|slot: int| 0 <= slot < KEY_SLOT_COUNT implies self.is_free(slot) == (old(
                self,
            ).is_free(slot) || slot == key_slot) by {
                lemma_set_bit(old(self).key_slot_state, key_slot as u32, slot as u32);
            }
        }
    }

    /// Hand over the changes that the radio has yet to be told of.
    pub fn take_commands(&mut self) -> (commands: Vec<KeyCommand>)
        ensures
            commands@ == old(self).commands@,
            final(self).commands@ == Seq::<KeyCommand>::empty(),
            final(self).key_slot_state == old(self).key_slot_state,
    {
        let mut commands: Vec<KeyCommand> = Vec::new();
        std::mem::swap(&mut commands, &mut self.commands);
        commands
    }
}

/// Releasing a slot that was acquired restores which slots are free.
pub proof fn release_undoes_acquire(
    before: KeySlotManager,
    acquired: KeySlotManager,
    released: KeySlotManager,
    key_slot: int,
)
    requires
        0 <= key_slot < KEY_SLOT_COUNT,
        before.is_free(key_slot),
        acquired.lacks(before, key_slot),
        released.regains(acquired, key_slot),
    ensures
        forall|slot: int|
            0 <= slot < KEY_SLOT_COUNT ==> released.is_free(slot) == before.is_free(slot),
{
}

/// A key is refused for a group address, and for a slot, interface or key identifier that does not
/// exist, and for nothing else.
pub proof fn keys_are_for_single_peers(slot: KeySlot, key_id: u8, address: Seq<u8>)
    ensures
        key_result(slot, key_id, address) is Ok <==> slot.key_slot < KEY_SLOT_COUNT
            && slot.interface < INTERFACE_COUNT && key_id <= 3 && address[0] & 1 == 0,
{
}

/// Slots are handed out one by one: who acquires one leaves all others as they were.
pub proof fn acquiring_leaves_other_slots(before: KeySlotManager, after: KeySlotManager, slot: int, other: int)
    requires
        0 <= slot < KEY_SLOT_COUNT,
        0 <= other < KEY_SLOT_COUNT,
    ensures
        after.lacks(before, slot) ==> {
            &&& !after.is_free(slot)
            &&& other != slot ==> after.is_free(other) == before.is_free(other)
        },
        after.regains(before, slot) ==> {
            &&& after.is_free(slot)
            &&& other != slot ==> after.is_free(other) == before.is_free(other)
        },
{
}

} // verus!

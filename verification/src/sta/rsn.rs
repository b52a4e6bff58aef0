//! Security associations of a WPA2 network.
use vstd::prelude::*;

use super::rsn_group::GroupMessage1;
use super::rsn_retransmit::Message3Replay;
use crate::bytes::{bytes_equal, to_array};
use crate::lmac::crypto::{AesCipherParameters, KeyCommand, KeySlot, KeySlotManager, KeyType};
use ieee80211::elements::rsn::{IEEE80211AkmType, IEEE80211CipherSuiteSelector};

verus! {

/// The length of a pairwise master key.
pub const PMK_LENGTH: usize = 32;
/// The length of a pairwise transient key: confirmation key, encryption key and temporal key.
pub const PTK_LENGTH: usize = 48;
/// The length of a group transient key.
pub const GTK_LENGTH: usize = 16;
/// The number of key identifiers.
pub const KEY_ID_COUNT: usize = 4;
/// Selector of the key management suite of WPA2-PSK: the organization, then suite 2.
pub const WPA2_PSK_AKM: u32 = 0x02ac_0f00;
/// Selector of the CCMP cipher suite with 128 bit keys: the organization, then suite 4.
pub const CIPHER_CCMP_128: u32 = 0x04ac_0f00;

/// The suite that a selector names, if it is one of IEEE 802.11.
pub open spec fn suite_type(selector: u32) -> Option<int> {
    if selector as int % 0x100_0000 == 0xac_0f00 {
        Some(selector as int / 0x100_0000)
    } else {
        None
    }
}

/// Length of the key confirmation key of a key management suite.
pub open spec fn kck_len(akm: u32) -> Option<nat> {
    match suite_type(akm) {
        Some(suite) if 1 <= suite <= 11 => Some(16),
        Some(suite) if 12 <= suite <= 13 => Some(24),
        _ => None,
    }
}

/// Length of the key encryption key of a key management suite.
pub open spec fn kek_len(akm: u32) -> Option<nat> {
    match suite_type(akm) {
        Some(suite) if 1 <= suite <= 11 => Some(16),
        Some(suite) if 12 <= suite <= 14 || suite == 16 => Some(32),
        Some(suite) if suite == 15 || suite == 17 => Some(64),
        _ => None,
    }
}

/// Length of the temporal key of a cipher suite.
pub open spec fn tk_len(cipher: u32) -> Option<nat> {
    match suite_type(cipher) {
        Some(suite) if suite == 1 => Some(5),
        Some(suite) if suite == 5 => Some(13),
        Some(suite) if suite == 4 || suite == 6 || suite == 8 || suite == 11 => Some(16),
        Some(suite) if suite == 2 || suite == 9 || suite == 10 || suite == 12 || suite
            == 13 => Some(32),
        _ => None,
    }
}

/// The confirmation key, encryption key and temporal key in a pairwise transient key.
pub open spec fn ptk_parts(ptk: Seq<u8>, akm: u32, cipher: u32) -> Option<
    (Seq<u8>, Seq<u8>, Seq<u8>),
> {
    match (kck_len(akm), kek_len(akm), tk_len(cipher)) {
        (Some(kck), Some(kek), Some(tk)) if kck + kek + tk <= ptk.len() => Some(
            (
                ptk.subrange(0, kck as int),
                ptk.subrange(kck as int, (kck + kek) as int),
                ptk.subrange((kck + kek) as int, (kck + kek + tk) as int),
            ),
        ),
        _ => None,
    }
}

/// Partition a pairwise transient key.
///
/// Calls `ieee80211::crypto::partition_ptk`: the three keys stand one after the other, their
/// lengths depend on the suites, and nothing is returned where a suite is unknown or the key too
/// short.
#[verifier::external_body]
pub(crate) fn partition_ptk(ptk: &[u8], akm: u32, cipher: u32) -> (parts: Option<
    (&[u8], &[u8], &[u8]),
>)
    ensures
        parts is Some == ptk_parts(ptk@, akm, cipher) is Some,
        parts matches Some((kck, kek, tk)) ==> (kck@, kek@, tk@) == ptk_parts(
            ptk@,
            akm,
            cipher,
        )->Some_0,
{
    ieee80211::crypto::partition_ptk(
        ptk,
        IEEE80211AkmType::with_cipher_suite_selector(akm),
        IEEE80211CipherSuiteSelector::with_cipher_suite_selector(cipher),
    )
}

/// A transient key security association.
///
/// Currently this is only meant for group and pairwise keys.
#[derive(Debug)]
pub struct TransientKeySecurityAssociation<const N: usize, const IS_PAIRWISE: bool> {
    /// The cryptographic key.
    pub key: [u8; N],
    /// The ID of the key.
    pub key_id: u8,
    /// The last packet number received from the peer. It is updated with the packet number of any
    /// received frame that is larger.
    pub replay_counter: u64,
    /// The next packet number to transmit.
    pub packet_number: u64,
}

impl<const N: usize, const IS_PAIRWISE: bool> TransientKeySecurityAssociation<N, IS_PAIRWISE> {
    /// Create a new association with all counters at their start.
    pub fn new(key: [u8; N], key_id: u8) -> (association: Self)
        ensures
            association == (TransientKeySecurityAssociation::<N, IS_PAIRWISE> {
                key,
                key_id,
                replay_counter: 0,
                packet_number: 1,
            }),
    {
        Self { key, key_id, replay_counter: 0, packet_number: 1 }
    }

    /// Initialize a newly authenticated group key's receive floor from its receive counter.
    pub fn with_receive_floor(self, floor: u64) -> (association: Self)
        ensures
            association == (TransientKeySecurityAssociation::<N, IS_PAIRWISE> {
                replay_counter: floor,
                ..self
            }),
    {
        Self {
            key: self.key,
            key_id: self.key_id,
            replay_counter: floor,
            packet_number: self.packet_number,
        }
    }

    /// The temporal key: the last part of a pairwise key, or all of a group key.
    pub open spec fn spec_tk(&self, akm_suite: u32, cipher_suite: u32) -> Seq<u8> {
        if IS_PAIRWISE {
            ptk_parts(self.key@, akm_suite, cipher_suite)->Some_0.2
        } else {
            self.key@
        }
    }

    /// Get the temporal key for this association.
    pub fn tk(&self, akm_suite: u32, cipher_suite: u32) -> (tk: &[u8])
        requires
            IS_PAIRWISE ==> ptk_parts(self.key@, akm_suite, cipher_suite) is Some,
        ensures
            tk@ == self.spec_tk(akm_suite, cipher_suite),
    {
        if IS_PAIRWISE {
            partition_ptk(&self.key, akm_suite, cipher_suite).unwrap().2
        } else {
            &self.key
        }
    }

    /// Get the next packet number to transmit.
    pub fn next_packet_number(&mut self) -> (packet_number: u64)
        ensures
            packet_number == old(self).packet_number,
            *final(self) == (TransientKeySecurityAssociation::<N, IS_PAIRWISE> {
                packet_number: if old(self).packet_number == u64::MAX {
                    0
                } else {
                    (old(self).packet_number + 1) as u64
                },
                ..*old(self)
            }),
    {
        let packet_number: u64 = self.packet_number;
        self.packet_number = packet_number.wrapping_add(1);
        packet_number
    }

    /// Check if the packet number is valid and update the replay counter.
    ///
    /// This will only update the replay counter if the packet number is larger than the current
    /// value.
    pub fn update_and_validate_replay_counter(&mut self, packet_number: u64) -> (valid: bool)
        ensures
            valid == (packet_number > old(self).replay_counter),
            *final(self) == (TransientKeySecurityAssociation::<N, IS_PAIRWISE> {
                replay_counter: if valid {
                    packet_number
                } else {
                    old(self).replay_counter
                },
                ..*old(self)
            }),
    {
        let valid = self.replay_counter < packet_number;
        if valid {
            self.replay_counter = packet_number;
        }
        valid
    }
}

/// A pairwise transient key and its counters.
pub type PairwiseAssociation = TransientKeySecurityAssociation<PTK_LENGTH, true>;

/// A group transient key and its counters.
pub type GroupAssociation = TransientKeySecurityAssociation<GTK_LENGTH, false>;

/// All security associations used in a WPA2 network.
#[derive(Debug)]
pub struct SecurityAssociations {
    /// The pairwise transient key.
    pub ptksa: PairwiseAssociation,
    /// Both old and new group keys are retained while the access point changes its transmit key.
    pub group_keys: [Option<GroupAssociation>; 4],
    /// Identifier of the group key that was installed last.
    pub active_group_id: u8,
    /// The authentication and key management suite.
    pub akm_suite: u32,
    /// The cipher suite.
    pub cipher_suite: u32,
}

impl SecurityAssociations {
    /// The active group key is there, every group key stands at its identifier, and the parts of the
    /// pairwise key have sixteen bytes each.
    pub open spec fn wf(&self) -> bool {
        &&& self.active_group_id < KEY_ID_COUNT
        &&& self.group_keys@[self.active_group_id as int] is Some
        &&& forall|i: int|
            0 <= i < KEY_ID_COUNT ==> (#[trigger] self.group_keys@[i] matches Some(key)
                ==> key.key_id == i)
        &&& ptk_parts(self.ptksa.key@, self.akm_suite, self.cipher_suite) matches Some(parts)
            && parts.0.len() == 16 && parts.1.len() == 16 && parts.2.len() == 16
    }

    /// No group key is known under two identifiers.
    pub open spec fn keys_distinct(&self) -> bool {
        forall|i: int, j: int|
            0 <= i < KEY_ID_COUNT && 0 <= j < KEY_ID_COUNT && i != j && (
            #[trigger] self.group_keys@[i]) is Some && (#[trigger] self.group_keys@[j]) is Some
                ==> self.group_keys@[i]->Some_0.key@ != self.group_keys@[j]->Some_0.key@
    }

    /// Whether the group key `key` is known under `id`.
    pub open spec fn has_group_key(&self, id: int, key: Seq<u8>) -> bool {
        0 <= id < KEY_ID_COUNT && (self.group_keys@[id] matches Some(known) && known.key@ == key)
    }

    /// Get the pairwise temporal key.
    pub fn pairwise_temporal_key(&self) -> (tk: &[u8])
        requires
            ptk_parts(self.ptksa.key@, self.akm_suite, self.cipher_suite) is Some,
        ensures
            tk@ == self.ptksa.spec_tk(self.akm_suite, self.cipher_suite),
    {
        self.ptksa.tk(self.akm_suite, self.cipher_suite)
    }

    /// Get the group key with the given identifier.
    pub fn group_key(&self, id: u8) -> (key: Option<&GroupAssociation>)
        ensures
            key is Some == (id < KEY_ID_COUNT && self.group_keys@[id as int] is Some),
            key matches Some(key) ==> *key == self.group_keys@[id as int]->Some_0,
    {
        if (id as usize) < KEY_ID_COUNT {
            self.group_keys[id as usize].as_ref()
        } else {
            None
        }
    }

    /// Get the group key that was installed last.
    pub fn active_group_key(&self) -> (key: &GroupAssociation)
        requires
            self.active_group_id < KEY_ID_COUNT,
            self.group_keys@[self.active_group_id as int] is Some,
        ensures
            *key == self.group_keys@[self.active_group_id as int]->Some_0,
    {
        self.group_key(self.active_group_id).unwrap()
    }

    /// Check whether `key` is known under an identifier other than `id`.
    fn known_elsewhere(&self, id: usize, key: &[u8; 16]) -> (known: bool)
        ensures
            known == exists|other: int| other != id && self.has_group_key(other, key@),
    {
        let mut other: usize = 0;
        while other < KEY_ID_COUNT
            invariant
                other <= KEY_ID_COUNT,
                forall|i: int| 0 <= i < other && i != id ==> !self.has_group_key(i, key@),
            decreases KEY_ID_COUNT - other,
        {
            if other != id {
                if let Some(known) = &self.group_keys[other] {
                    if bytes_equal(&known.key, key) {
                        assert(self.has_group_key(other as int, key@));
                        return true;
                    }
                }
            }
            other = other + 1;
        }
        false
    }
}

/// State of cryptographic management.
pub struct CryptoState {
    /// Authenticated initial exchange, independent of data packet numbers.
    pub message3_replay: Message3Replay,
    /// One hardware slot per group key identifier; rotation does not overwrite the old key.
    pub gtk_key_slots: [KeySlot; 4],
    /// The group message 1 that was accepted last.
    pub last_group_message: Option<GroupMessage1>,
    /// Replay counter of the last request for a group key.
    pub group_request_counter: u64,
    /// Key slot used for the pairwise key.
    pub ptk_key_slot: KeySlot,
    /// All security associations.
    pub security_associations: SecurityAssociations,
}

/// The command that puts a group key into its slot.
pub open spec fn group_key_command(slot: KeySlot, id: u8, bssid: [u8; 6], key: [u8; 16])
    -> KeyCommand {
    KeyCommand::Install {
        key_slot: slot.key_slot,
        interface: slot.interface,
        key_id: id,
        address: bssid,
        parameters: AesCipherParameters {
            key,
            key_type: KeyType::Group,
            mfp_enabled: false,
            spp_enabled: false,
        },
    }
}

/// Whether `command` puts the pairwise temporal key `tk` into `slot`.
pub open spec fn is_pairwise_key_command(
    command: KeyCommand,
    slot: KeySlot,
    bssid: [u8; 6],
    tk: Seq<u8>,
) -> bool {
    &&& command matches KeyCommand::Install { key_slot, interface, key_id, address, parameters }
    &&& key_slot == slot.key_slot
    &&& interface == slot.interface
    &&& key_id == 0
    &&& address == bssid
    &&& parameters.key@ == tk
    &&& parameters.key_type == KeyType::Pairwise
    &&& !parameters.mfp_enabled
    &&& !parameters.spp_enabled
}

/// Whether the commands in `after` are those in `before`, and then those that put the pairwise key
/// and the active group key of a connection into their slots.
pub open spec fn keys_programmed(
    before: Seq<KeyCommand>,
    after: Seq<KeyCommand>,
    state: CryptoState,
    bssid: [u8; 6],
) -> bool {
    let associations = state.security_associations;
    let id = associations.active_group_id;
    &&& after.len() == before.len() + 2
    &&& after.subrange(0, before.len() as int) == before
    &&& is_pairwise_key_command(
        after[before.len() as int],
        state.ptk_key_slot,
        bssid,
        associations.ptksa.spec_tk(associations.akm_suite, associations.cipher_suite),
    )
    &&& after.last() == group_key_command(
        state.gtk_key_slots@[id as int],
        id,
        bssid,
        associations.group_keys@[id as int]->Some_0.key,
    )
}

/// What an authenticated group message 1 leads to.
pub enum GroupMessageOutcome {
    /// It is ignored.
    Ignored,
    /// It repeats the last one, and is acknowledged again.
    Repeated,
    /// It names the key that is installed already, and is acknowledged.
    Confirmed,
    /// It brings a new key, which is installed and acknowledged.
    Installed,
}

impl CryptoState {
    /// All slots exist and the security associations are well formed.
    pub open spec fn wf(&self) -> bool {
        &&& self.security_associations.wf()
        &&& self.ptk_key_slot.wf()
        &&& forall|i: int| 0 <= i < KEY_ID_COUNT ==> (#[trigger] self.gtk_key_slots@[i]).wf()
    }

    /// What `message` leads to in this state.
    pub open spec fn group_message_outcome(&self, message: GroupMessage1) -> GroupMessageOutcome {
        let counter = self.message3_replay.replay_counter;
        if message.counter < counter {
            GroupMessageOutcome::Ignored
        } else if message.counter == counter {
            if self.last_group_message == Some(message) {
                GroupMessageOutcome::Repeated
            } else {
                GroupMessageOutcome::Ignored
            }
        } else if message.key_id >= KEY_ID_COUNT || exists|other: int|
            other != message.key_id && self.security_associations.has_group_key(
                other,
                message.key@,
            ) {
            GroupMessageOutcome::Ignored
        } else if self.security_associations.has_group_key(message.key_id as int, message.key@) {
            GroupMessageOutcome::Confirmed
        } else {
            GroupMessageOutcome::Installed
        }
    }

    /// Whether this is `before` after `message`.
    pub open spec fn is_after_group_message(
        &self,
        before: CryptoState,
        message: GroupMessage1,
    ) -> bool {
        let old_keys = before.security_associations.group_keys@;
        let new_keys = self.security_associations.group_keys@;
        match before.group_message_outcome(message) {
            GroupMessageOutcome::Ignored => *self == before,
            GroupMessageOutcome::Repeated => *self == before,
            GroupMessageOutcome::Confirmed => {
                &&& self.acknowledges(before, message)
                &&& new_keys == old_keys
            },
            GroupMessageOutcome::Installed => {
                &&& self.acknowledges(before, message)
                &&& new_keys == old_keys.update(
                    message.key_id as int,
                    Some(
                        TransientKeySecurityAssociation {
                            key: message.key,
                            key_id: message.key_id,
                            replay_counter: message.rsc,
                            packet_number: 1,
                        },
                    ),
                )
            },
        }
    }

    /// What the radio is told because of `message`.
    pub open spec fn group_message_commands(
        &self,
        message: GroupMessage1,
        bssid: [u8; 6],
    ) -> Seq<KeyCommand> {
        match self.group_message_outcome(message) {
            GroupMessageOutcome::Installed => seq![
                group_key_command(
                    self.gtk_key_slots@[message.key_id as int],
                    message.key_id,
                    bssid,
                    message.key,
                ),
            ],
            _ => Seq::<KeyCommand>::empty(),
        }
    }

    /// Take over freshly negotiated keys and program them.
    pub fn new(
        manager: &mut KeySlotManager,
        gtk_key_slots: [KeySlot; 4],
        ptk_key_slot: KeySlot,
        bssid: [u8; 6],
        security_associations: SecurityAssociations,
        message3_replay: Message3Replay,
    ) -> (state: Self)
        requires
            security_associations.wf(),
            ptk_key_slot.wf(),
            forall|i: int| 0 <= i < KEY_ID_COUNT ==> (#[trigger] gtk_key_slots@[i]).wf(),
            bssid@[0] & 1 == 0,
        ensures
            state == (CryptoState {
                message3_replay,
                gtk_key_slots,
                last_group_message: None,
                group_request_counter: 0,
                ptk_key_slot,
                security_associations,
            }),
            state.wf(),
            final(manager).key_slot_state == old(manager).key_slot_state,
            keys_programmed(old(manager).commands@, final(manager).commands@, state, bssid),
    {
        let mut state = Self {
            message3_replay,
            gtk_key_slots,
            last_group_message: None,
            group_request_counter: 0,
            ptk_key_slot,
            security_associations,
        };
        state.program_pairwise_key(manager, bssid);
        let id: u8 = state.security_associations.active_group_id;
        state.program_group_key(manager, id, bssid);
        assert(manager.commands@.subrange(0, old(manager).commands@.len() as int) =~= old(
            manager,
        ).commands@);
        state
    }

    /// Commit an authenticated group message 1.
    ///
    /// Retries acknowledge the installed key without resetting hardware or software replay state.
    /// Older exchanges do nothing. A key that is known under another identifier is refused: moving
    /// it would reset its packet number protection.
    ///
    /// Returns whether a key was installed, if the message is to be acknowledged.
    pub fn accept_group_message(
        &mut self,
        manager: &mut KeySlotManager,
        message: GroupMessage1,
        bssid: [u8; 6],
    ) -> (installed: Option<bool>)
        requires
            old(self).wf(),
            bssid@[0] & 1 == 0,
        ensures
            final(self).wf(),
            final(manager).key_slot_state == old(manager).key_slot_state,
            // No key becomes known under two identifiers.
            old(self).security_associations.keys_distinct()
                ==> final(self).security_associations.keys_distinct(),
            // The counters of a key that stays are never reset.
            forall|id: int|
                0 <= id < KEY_ID_COUNT && old(self).security_associations.group_keys@[id] is Some
                    && final(self).security_associations.has_group_key(
                    id,
                    old(self).security_associations.group_keys@[id]->Some_0.key@,
                ) ==> #[trigger] final(self).security_associations.group_keys@[id] == old(
                    self,
                ).security_associations.group_keys@[id],
            // The replay counter of the handshake never falls.
            final(self).message3_replay.replay_counter >= old(self).message3_replay.replay_counter,
            installed == match old(self).group_message_outcome(message) {
                GroupMessageOutcome::Ignored => None,
                GroupMessageOutcome::Repeated => Some(false),
                GroupMessageOutcome::Confirmed => Some(false),
                GroupMessageOutcome::Installed => Some(true),
            },
            final(self).is_after_group_message(*old(self), message),
            final(manager).commands@ == old(manager).commands@ + old(self).group_message_commands(
                message,
                bssid,
            ),
    {
        let counter: u64 = self.message3_replay.counter();
        assert(manager.commands@ + Seq::<KeyCommand>::empty() =~= manager.commands@);
        if message.counter < counter {
            return None;
        }
        if message.counter == counter {
            return match &self.last_group_message {
                Some(last) => {
                    if last.equals(&message) {
                        Some(false)
                    } else {
                        None
                    }
                },
                None => None,
            };
        }
        let id: usize = message.key_id as usize;
        if id >= KEY_ID_COUNT {
            return None;
        }
        if self.security_associations.known_elsewhere(id, &message.key) {
            return None;
        }
        let already_installed = match self.security_associations.group_key(message.key_id) {
            Some(key) => bytes_equal(&key.key, &message.key),
            None => false,
        };
        if !already_installed {
            self.security_associations.group_keys[id] = Some(
                TransientKeySecurityAssociation::new(
                    message.key,
                    message.key_id,
                ).with_receive_floor(message.rsc),
            );
            self.program_group_key(manager, message.key_id, bssid);
        }
        self.security_associations.active_group_id = message.key_id;
        self.message3_replay.advance(message.counter);
        self.last_group_message = Some(message);
        proof {
            let before = old(self).security_associations;
            let after = self.security_associations;
            assert forall|i: int, j: int|
                0 <= i < KEY_ID_COUNT && 0 <= j < KEY_ID_COUNT && i != j && (
                #[trigger] after.group_keys@[i]) is Some && (
                #[trigger] after.group_keys@[j]) is Some
                    && before.keys_distinct() implies after.group_keys@[i]->Some_0.key@
                != after.group_keys@[j]->Some_0.key@ by {
                assert(i != id ==> !before.has_group_key(i, message.key@));
                assert(j != id ==> !before.has_group_key(j, message.key@));
                assert(before.group_keys@[i] is Some || i == id);
                assert(before.group_keys@[j] is Some || j == id);
            }
        }
        Some(!already_installed)
    }

    /// Whether this is `before` with `message` recorded as accepted; the group keys are left open.
    pub open spec fn acknowledges(&self, before: CryptoState, message: GroupMessage1) -> bool {
        &&& self.message3_replay == Message3Replay {
            replay_counter: message.counter,
            ..before.message3_replay
        }
        &&& self.gtk_key_slots == before.gtk_key_slots
        &&& self.last_group_message == Some(message)
        &&& self.group_request_counter == before.group_request_counter
        &&& self.ptk_key_slot == before.ptk_key_slot
        &&& self.security_associations.ptksa == before.security_associations.ptksa
        &&& self.security_associations.active_group_id == message.key_id
        &&& self.security_associations.akm_suite == before.security_associations.akm_suite
        &&& self.security_associations.cipher_suite == before.security_associations.cipher_suite
    }

    fn program_group_key(&mut self, manager: &mut KeySlotManager, id: u8, bssid: [u8; 6])
        requires
            id < KEY_ID_COUNT,
            old(self).security_associations.group_keys@[id as int] is Some,
            old(self).gtk_key_slots@[id as int].wf(),
            bssid@[0] & 1 == 0,
        ensures
            *final(self) == *old(self),
            final(manager).key_slot_state == old(manager).key_slot_state,
            final(manager).commands@ == old(manager).commands@.push(
                group_key_command(
                    old(self).gtk_key_slots@[id as int],
                    id,
                    bssid,
                    old(self).security_associations.group_keys@[id as int]->Some_0.key,
                ),
            ),
    {
        let key: [u8; 16] = self.security_associations.group_key(id).unwrap().key;
        let result = self.gtk_key_slots[id as usize].set_key(
            manager,
            id,
            bssid,
            AesCipherParameters {
                key,
                key_type: KeyType::Group,
                mfp_enabled: false,
                spp_enabled: false,
            },
        );
        result.unwrap();
        assert(self.gtk_key_slots@ =~= old(self).gtk_key_slots@);
        assert(self.gtk_key_slots =~= old(self).gtk_key_slots);
    }

    fn program_pairwise_key(&mut self, manager: &mut KeySlotManager, bssid: [u8; 6])
        requires
            old(self).security_associations.wf(),
            old(self).ptk_key_slot.wf(),
            bssid@[0] & 1 == 0,
        ensures
            *final(self) == *old(self),
            final(manager).key_slot_state == old(manager).key_slot_state,
            final(manager).commands@.len() == old(manager).commands@.len() + 1,
            final(manager).commands@.drop_last() == old(manager).commands@,
            is_pairwise_key_command(
                final(manager).commands@.last(),
                old(self).ptk_key_slot,
                bssid,
                old(self).security_associations.ptksa.spec_tk(
                    old(self).security_associations.akm_suite,
                    old(self).security_associations.cipher_suite,
                ),
            ),
    {
        let key: [u8; 16] = to_array::<16>(self.security_associations.pairwise_temporal_key());
        let result = self.ptk_key_slot.set_key(
            manager,
            0,
            bssid,
            AesCipherParameters {
                key,
                key_type: KeyType::Pairwise,
                mfp_enabled: false,
                spp_enabled: false,
            },
        );
        result.unwrap();
        assert(manager.commands@.drop_last() =~= old(manager).commands@);
    }
}

} // verus!

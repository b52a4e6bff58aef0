//! Connecting to a network.
//!
//! Waiting for frames and for the radio is up to the caller. What is sent, what an answer means and
//! what comes next is decided here.
use vstd::prelude::*;

use crate::bytes::overwrite;
use crate::eapol::{wpa2_personal, wpa2_personal_element};
use crate::lmac::crypto::{KeyCommand, KeySlot, KeySlotManager};
use crate::lmac::{InterfaceBringupOperation, LMacError, LMacInterfaceControl, SharedLMacState};
use crate::mac::MACAddress;
use crate::mgmt::{
    association_request, authentication, has_mgmt_body, is_association_response, mgmt_field,
    parse_association_response, parse_authentication, serialize_association_request,
    serialize_authentication, ALGORITHM_OPEN_SYSTEM, STATUS_SUCCESS,
};
use crate::radio::{
    RxFilterBank, RxInterface, TxMacParameters, TxPhyRate, TxPlcpParameters, KEY_SLOT_COUNT,
};
use crate::sta::bss::{pmk_of, Credentials, SecurityConfig, BSS};
use crate::sta::connection_state::ConnectionConfig;
use crate::sta::rsn::{keys_programmed, CryptoState, SecurityAssociations, PMK_LENGTH};
use crate::sta::rsn_retransmit::Message3Replay;
use crate::sta::rx_router::{StaRxRouter, StaRxRouterOperation};
use crate::sta::{StaError, StaTxRx};
use crate::tx_queue::RetryBehaviour;
use crate::util::operations::deauth::Transmission;
use crate::util::rx_router::RxRouterScopedOperation;
use vstd::utf8::encode_utf8;

verus! {

/// Duration field of association requests.
pub const ASSOCIATION_DURATION: u16 = 60;
/// The supported rates element: 1, 2, 5.5, 11, 6, 9, 12 and 18 Mbit/s, the first four basic.
pub const SUPPORTED_RATES: [u8; 10] = [1, 8, 0x82, 0x84, 0x8b, 0x96, 0x0c, 0x12, 0x18, 0x24];
/// The extended supported rates element: 24, 36, 48 and 54 Mbit/s.
pub const EXTENDED_RATES: [u8; 6] = [50, 4, 0x30, 0x48, 0x60, 0x6c];
/// The largest length of an SSID.
pub const MAX_SSID_LENGTH: usize = 32;

/// How authentication and association frames are transmitted: the radio assigns a new sequence
/// number to each.
pub open spec fn connection_transmission(length: usize, rate: TxPhyRate) -> Transmission {
    Transmission {
        length,
        plcp_parameters: TxPlcpParameters { rate },
        mac_parameters: TxMacParameters {
            key_slot_index: None,
            wait_for_ack: false,
            override_seq_num: true,
        },
        retry_behaviour: RetryBehaviour::RetryUntil(7),
    }
}

/// Put together how a connection frame is transmitted.
fn new_connection_transmission(length: usize, rate: TxPhyRate) -> (transmission: Transmission)
    ensures
        transmission == connection_transmission(length, rate),
{
    Transmission {
        length,
        plcp_parameters: TxPlcpParameters { rate },
        mac_parameters: TxMacParameters {
            key_slot_index: None,
            wait_for_ack: false,
            override_seq_num: true,
        },
        retry_behaviour: RetryBehaviour::RetryUntil(7),
    }
}

/// A step of connection establishment: a frame is sent, and a response is awaited.
///
/// If no response is received in time, the step is retried as many times as configured. This
/// compensates for a behaviour of some access points, which ACK a frame but don't transmit a
/// response.
pub struct ConnectionStep {
    /// How many more times the frame may be sent.
    pub attempts_left: usize,
}

/// What comes next in a [ConnectionStep].
#[derive(Clone, Copy, Debug, PartialEq, Eq, Structural)]
pub enum StepAction {
    /// Send the frame.
    Transmit,
    /// Wait for a response, for at most the configured time.
    AwaitResponse,
    /// Give up.
    Fail(StaError),
}

impl ConnectionStep {
    /// Begin a step: the frame is sent once, and again for every retry.
    pub fn begin(config: &ConnectionConfig) -> (step: (Self, StepAction))
        ensures
            step.0.attempts_left == config.handshake_retries,
            step.1 == StepAction::Transmit,
    {
        (ConnectionStep { attempts_left: config.handshake_retries }, StepAction::Transmit)
    }

    /// The frame was sent; `completed` tells whether there is a completion. Whether the radio
    /// succeeded does not matter.
    pub fn transmitted(&mut self, completed: bool) -> (action: StepAction)
        ensures
            *final(self) == *old(self),
            action == if completed {
                StepAction::AwaitResponse
            } else {
                StepAction::Fail(StaError::ResponseTimeout)
            },
    {
        if completed {
            StepAction::AwaitResponse
        } else {
            StepAction::Fail(StaError::ResponseTimeout)
        }
    }

    /// What it leads to that no response arrived in time.
    pub open spec fn has_timed_out(&self, before: ConnectionStep, action: StepAction) -> bool {
        &&& before.attempts_left > 0 ==> {
            &&& action == StepAction::Transmit
            &&& self.attempts_left == before.attempts_left - 1
        }
        &&& before.attempts_left == 0 ==> {
            &&& action == StepAction::Fail(StaError::ResponseTimeout)
            &&& *self == before
        }
    }

    /// No response arrived in time.
    pub fn timed_out(&mut self) -> (action: StepAction)
        ensures
            final(self).has_timed_out(*old(self), action),
    {
        if self.attempts_left > 0 {
            self.attempts_left = self.attempts_left - 1;
            StepAction::Transmit
        } else {
            StepAction::Fail(StaError::ResponseTimeout)
        }
    }
}

/// Whether `after` is `before` with the request for authentication written into it.
pub open spec fn authentication_requested(
    before: Seq<u8>,
    after: Seq<u8>,
    rate: TxPhyRate,
    bssid: Seq<u8>,
    own: Seq<u8>,
    transmission: Transmission,
) -> bool {
    &&& transmission == connection_transmission(30, rate)
    &&& after == overwrite(
        before,
        0,
        authentication(bssid, own, ALGORITHM_OPEN_SYSTEM, 1, STATUS_SUCCESS),
    )
}

/// Write the request for authentication with the BSS.
///
/// This currently only performs open system authentication.
pub fn write_authentication(
    buffer: &mut [u8],
    rate: TxPhyRate,
    bssid: MACAddress,
    own_address: MACAddress,
) -> (transmission: Transmission)
    requires
        old(buffer)@.len() >= 30,
    ensures
        authentication_requested(
            old(buffer)@,
            final(buffer)@,
            rate,
            bssid@,
            own_address@,
            transmission,
        ),
{
    let length: usize = serialize_authentication(
        bssid,
        own_address,
        ALGORITHM_OPEN_SYSTEM,
        1,
        STATUS_SUCCESS,
        buffer,
    );
    new_connection_transmission(length, rate)
}

/// Take the response to the request for authentication.
pub fn do_auth(response: &[u8]) -> (result: Result<(), StaError>)
    ensures
        result == if !has_mgmt_body(response@, 6) {
            Err(StaError::FrameDeserializationFailed)
        } else if mgmt_field(response@, 4) == STATUS_SUCCESS {
            Ok(())
        } else {
            Err(StaError::AuthenticationFailure(mgmt_field(response@, 4) as u16))
        },
{
    match parse_authentication(response) {
        Some(status) => {
            if status == STATUS_SUCCESS {
                Ok(())
            } else {
                Err(StaError::AuthenticationFailure(status))
            }
        },
        None => Err(StaError::FrameDeserializationFailed),
    }
}

/// The elements of an association request.
pub open spec fn association_elements(ssid: Seq<u8>, rsn_active: bool) -> Seq<u8> {
    seq![0u8, ssid.len() as u8] + ssid + SUPPORTED_RATES@ + EXTENDED_RATES@ + if rsn_active {
        wpa2_personal()
    } else {
        Seq::<u8>::empty()
    }
}

/// The capabilities in an association request: ESS, and privacy for a protected network.
pub open spec fn association_capabilities(rsn_active: bool) -> u16 {
    if rsn_active {
        0x0011
    } else {
        0x0001
    }
}

/// Append bytes to a vector.
fn extend(bytes: &mut Vec<u8>, more: &[u8])
    ensures
        final(bytes)@ == old(bytes)@ + more@,
{
    let mut i: usize = 0;
    while i < more.len()
        invariant
            i <= more@.len(),
            bytes@ == old(bytes)@ + more@.subrange(0, i as int),
        decreases more@.len() - i,
    {
        bytes.push(more[i]);
        i = i + 1;
        assert(bytes@ =~= old(bytes)@ + more@.subrange(0, i as int));
    }
    assert(bytes@ =~= old(bytes)@ + more@);
}

/// Whether `after` is `before` with the request for association written into it, if the SSID is not
/// too long.
pub open spec fn association_requested(
    before: Seq<u8>,
    after: Seq<u8>,
    rate: TxPhyRate,
    bss: BSS,
    own: Seq<u8>,
    result: Result<Transmission, StaError>,
) -> bool {
    &&& result is Ok == (encode_utf8(bss.ssid@).len() <= MAX_SSID_LENGTH)
    &&& result matches Err(error) ==> error == StaError::InvalidBss && after == before
    &&& result matches Ok(transmission) ==> {
        let rsn_active = bss.security_config != SecurityConfig::Open;
        let elements = association_elements(encode_utf8(bss.ssid@), rsn_active);
        &&& transmission == connection_transmission((28 + elements.len()) as usize, rate)
        &&& after == overwrite(
            before,
            0,
            association_request(
                bss.bssid@,
                own,
                ASSOCIATION_DURATION,
                association_capabilities(rsn_active),
                elements,
            ),
        )
    }
}

/// Write the request for association with the BSS.
///
/// Like authentication, this only performs the bare minimum with a set of predetermined supported
/// rates.
pub fn write_association_request(
    buffer: &mut [u8],
    rate: TxPhyRate,
    bss: &BSS,
    own_address: MACAddress,
) -> (result: Result<Transmission, StaError>)
    requires
        old(buffer)@.len() >= 128,
    ensures
        association_requested(
            old(buffer)@,
            final(buffer)@,
            rate,
            *bss,
            own_address@,
            result,
        ),
{
    let rsn_active = bss.security_config != SecurityConfig::Open;
    let ssid = bss.ssid.as_str().as_bytes();
    if ssid.len() > MAX_SSID_LENGTH {
        return Err(StaError::InvalidBss);
    }
    let mut elements: Vec<u8> = vec![0, ssid.len() as u8];
    extend(&mut elements, ssid);
    extend(&mut elements, &SUPPORTED_RATES);
    extend(&mut elements, &EXTENDED_RATES);
    if rsn_active {
        extend(&mut elements, &wpa2_personal_element());
    }
    assert(elements@ =~= association_elements(encode_utf8(bss.ssid@), rsn_active));
    let capabilities: u16 = if rsn_active {
        0x0011
    } else {
        0x0001
    };
    let length: usize = serialize_association_request(
        bss.bssid,
        own_address,
        ASSOCIATION_DURATION,
        capabilities,
        &elements,
        buffer,
    );
    Ok(new_connection_transmission(length, rate))
}

/// Take the response to the request for association, and get the association ID.
pub fn do_assoc(response: &[u8]) -> (result: Result<u16, StaError>)
    ensures
        result == if !is_association_response(response@) {
            Err(StaError::FrameDeserializationFailed)
        } else if mgmt_field(response@, 4) != 0 && mgmt_field(response@, 2) == STATUS_SUCCESS {
            Ok((mgmt_field(response@, 4) % 0x4000) as u16)
        } else {
            Err(StaError::AssociationFailure(mgmt_field(response@, 2) as u16))
        },
{
    match parse_association_response(response) {
        Some(response) => {
            if let Some(aid) = response.association_id {
                if response.status_code == STATUS_SUCCESS {
                    return Ok(aid);
                }
            }
            Err(StaError::AssociationFailure(response.status_code))
        },
        None => Err(StaError::FrameDeserializationFailed),
    }
}

/// What a connection is to be established with.
pub struct ConnectionParameters<'a> {
    /// Configuration of the connection.
    pub config: ConnectionConfig,
    /// Our own address.
    pub own_address: MACAddress,
    /// Credentials for the network.
    pub credentials: Option<Credentials<'a>>,
}

/// The master key and the key slots for a protected connection.
pub struct PreparedKeys {
    /// The pairwise master key.
    pub pmk: [u8; 32],
    /// A slot for every group key identifier.
    pub gtk_key_slots: [KeySlot; 4],
    /// The slot for the pairwise key.
    pub ptk_key_slot: KeySlot,
}

impl PreparedKeys {
    /// All slots exist.
    pub open spec fn wf(&self) -> bool {
        &&& self.ptk_key_slot.wf()
        &&& forall|i: int| 0 <= i < 4 ==> (#[trigger] self.gtk_key_slots@[i]).wf()
    }

    /// No slot is given out twice.
    pub open spec fn slots_distinct(&self) -> bool {
        &&& forall|i: int, j: int|
            0 <= i < j < 4 ==> (#[trigger] self.gtk_key_slots@[i]).key_slot != (
            #[trigger] self.gtk_key_slots@[j]).key_slot
        &&& forall|i: int|
            0 <= i < 4 ==> (#[trigger] self.gtk_key_slots@[i]).key_slot
                != self.ptk_key_slot.key_slot
    }

    /// Whether a slot is one of these.
    pub open spec fn uses(&self, slot: int) -> bool {
        is_among(slot, self.gtk_key_slots@, self.ptk_key_slot)
    }
}

/// Whether a slot is one of those of a connection.
pub open spec fn is_among(slot: int, gtk_key_slots: Seq<KeySlot>, ptk_key_slot: KeySlot) -> bool {
    ||| ptk_key_slot.key_slot == slot
    ||| exists|i: int| 0 <= i < 4 && (#[trigger] gtk_key_slots[i]).key_slot == slot
}

/// The commands by which the slots of a connection are cleared.
pub open spec fn clear_commands(gtk_key_slots: Seq<KeySlot>, ptk_key_slot: KeySlot) -> Seq<
    KeyCommand,
> {
    seq![
        KeyCommand::Clear { key_slot: gtk_key_slots[0].key_slot },
        KeyCommand::Clear { key_slot: gtk_key_slots[1].key_slot },
        KeyCommand::Clear { key_slot: gtk_key_slots[2].key_slot },
        KeyCommand::Clear { key_slot: gtk_key_slots[3].key_slot },
        KeyCommand::Clear { key_slot: ptk_key_slot.key_slot },
    ]
}

/// Whether a connection is protected: the network is, and there are credentials.
pub open spec fn is_protected(bss: BSS, credentials: Option<Credentials<'_>>) -> bool {
    bss.security_config != SecurityConfig::Open && credentials is Some
}

/// Whether nothing but slots that were free before has been cleared.
pub open spec fn only_free_slots_cleared(before: KeySlotManager, after: KeySlotManager) -> bool {
    &&& after.commands@.len() >= before.commands@.len()
    &&& after.commands@.subrange(0, before.commands@.len() as int) == before.commands@
    &&& forall|i: int|
        before.commands@.len() <= i < after.commands@.len() ==> {
            &&& #[trigger] after.commands@[i] matches KeyCommand::Clear { key_slot }
            &&& before.is_free(key_slot as int)
        }
}

/// Give back a key slot, if one was acquired.
fn release_slot(manager: &mut KeySlotManager, slot: Option<KeySlot>)
    requires
        slot matches Some(slot) ==> slot.wf(),
    ensures
        slot is None ==> *final(manager) == *old(manager),
        slot matches Some(slot) ==> {
            &&& final(manager).regains(*old(manager), slot.key_slot as int)
            &&& final(manager).commands@ == old(manager).commands@.push(
                KeyCommand::Clear { key_slot: slot.key_slot },
            )
        },
{
    if let Some(slot) = slot {
        manager.release_key_slot(slot.key_slot());
    }
}

/// The slots that are free.
pub open spec fn same_free_slots(a: KeySlotManager, b: KeySlotManager) -> bool {
    forall|slot: int| 0 <= slot < KEY_SLOT_COUNT ==> a.is_free(slot) == b.is_free(slot)
}

/// How many of the first `count` slots are free.
pub open spec fn free_slots(manager: KeySlotManager, count: int) -> int
    decreases count,
{
    if count <= 0 {
        0
    } else {
        free_slots(manager, count - 1) + if manager.is_free(count - 1) {
            1int
        } else {
            0
        }
    }
}

/// Taking one free slot leaves one less.
proof fn lemma_one_slot_less(
    before: KeySlotManager,
    after: KeySlotManager,
    slot: int,
    count: int,
)
    requires
        0 <= slot < KEY_SLOT_COUNT,
        0 <= count <= KEY_SLOT_COUNT,
        before.is_free(slot),
        after.lacks(before, slot),
    ensures
        free_slots(after, count) == free_slots(before, count) - if slot < count {
            1int
        } else {
            0
        },
    decreases count,
{
    if count > 0 {
        lemma_one_slot_less(before, after, slot, count - 1);
        assert(after.is_free(count - 1) == (before.is_free(count - 1) && count - 1 != slot));
    }
}

/// Where no slot is free, there are none.
proof fn lemma_no_slot_free(manager: KeySlotManager, count: int)
    requires
        0 <= count <= KEY_SLOT_COUNT,
    ensures
        free_slots(manager, count) >= 0,
        (forall|slot: int| 0 <= slot < count ==> !manager.is_free(slot)) == (free_slots(
            manager,
            count,
        ) == 0),
    decreases count,
{
    if count > 0 {
        lemma_no_slot_free(manager, count - 1);
        if free_slots(manager, count) == 0 {
            assert forall|slot: int| 0 <= slot < count implies !manager.is_free(slot) by {
                if slot < count - 1 {
                    assert(forall|s: int| 0 <= s < count - 1 ==> !manager.is_free(s));
                }
            }
        }
    }
}

/// Acquire a slot, and account for it.
fn acquire(control: &LMacInterfaceControl, state: &mut SharedLMacState) -> (slot: Option<KeySlot>)
    requires
        control.wf(),
    ensures
        final(state).channel_state == old(state).channel_state,
        final(state).key_slot_manager.commands@ == old(state).key_slot_manager.commands@,
        slot is Some == (free_slots(old(state).key_slot_manager, KEY_SLOT_COUNT as int) > 0),
        slot is None ==> *final(state) == *old(state),
        slot matches Some(slot) ==> {
            &&& slot.wf()
            &&& slot.interface == control.interface
            &&& old(state).key_slot_manager.is_free(slot.key_slot as int)
            &&& final(state).key_slot_manager.lacks(
                old(state).key_slot_manager,
                slot.key_slot as int,
            )
            &&& free_slots(final(state).key_slot_manager, KEY_SLOT_COUNT as int) == free_slots(
                old(state).key_slot_manager,
                KEY_SLOT_COUNT as int,
            ) - 1
        },
{
    proof {
        lemma_no_slot_free(state.key_slot_manager, KEY_SLOT_COUNT as int);
    }
    let slot = control.acquire_key_slot(state);
    proof {
        if let Some(slot) = &slot {
            lemma_one_slot_less(
                old(state).key_slot_manager,
                state.key_slot_manager,
                slot.key_slot as int,
                KEY_SLOT_COUNT as int,
            );
        }
    }
    slot
}

/// What preparing the keys of a connection leads to: nothing for one that is not protected; else the
/// master key and five slots, or an error, after which all slots are as before.
pub open spec fn keys_prepared(
    before: SharedLMacState,
    after: SharedLMacState,
    bss: BSS,
    credentials: Option<Credentials<'_>>,
    result: Result<Option<PreparedKeys>, StaError>,
) -> bool {
    &&& after.channel_state == before.channel_state
    &&& !is_protected(bss, credentials) ==> {
        &&& result matches Ok(None)
        &&& after == before
    }
    &&& is_protected(bss, credentials) ==> {
        let pmk = pmk_of(credentials->Some_0, bss.ssid@, PMK_LENGTH as nat);
        let available = free_slots(before.key_slot_manager, KEY_SLOT_COUNT as int);
        if pmk is None {
            &&& result matches Err(error) && error == StaError::InvalidPskLength
            &&& same_free_slots(after.key_slot_manager, before.key_slot_manager)
            &&& only_free_slots_cleared(
                before.key_slot_manager,
                after.key_slot_manager,
            )
        } else if available < 5 {
            &&& result matches Err(error) && error == StaError::NoKeySlotsAvailable
            &&& same_free_slots(after.key_slot_manager, before.key_slot_manager)
            &&& only_free_slots_cleared(
                before.key_slot_manager,
                after.key_slot_manager,
            )
        } else {
            &&& result matches Ok(Some(keys))
            &&& keys.wf()
            &&& keys.slots_distinct()
            &&& Some(keys.pmk@) == pmk
            &&& after.key_slot_manager.commands@ == before.key_slot_manager.commands@
            &&& forall|slot: int|
                0 <= slot < KEY_SLOT_COUNT ==> #[trigger] after.key_slot_manager.is_free(slot) == (
                before.key_slot_manager.is_free(slot) && !keys.uses(slot))
            &&& forall|slot: int|
                0 <= slot < KEY_SLOT_COUNT && keys.uses(slot) ==> before.key_slot_manager.is_free(slot)
        }
    }
}

/// Derive the master key and acquire the key slots for a protected connection.
///
/// Five slots are needed: one for every group key identifier, and one for the pairwise key. Where
/// something fails, all slots are given back.
pub fn prepare_keys(
    control: &LMacInterfaceControl,
    state: &mut SharedLMacState,
    bss: &BSS,
    credentials: &Option<Credentials<'_>>,
) -> (result: Result<Option<PreparedKeys>, StaError>)
    requires
        control.wf(),
    ensures
        keys_prepared(*old(state), *final(state), *bss, *credentials, result),
{
    let credentials = match credentials {
        Some(credentials) => credentials,
        None => {
            return Ok(None);
        },
    };
    if bss.security_config == SecurityConfig::Open {
        return Ok(None);
    }
    let a = acquire(control, state);
    let ghost after_a = *state;
    let b = acquire(control, state);
    let ghost after_b = *state;
    let c = acquire(control, state);
    let ghost after_c = *state;
    let d = acquire(control, state);
    let ghost after_d = *state;
    let e = acquire(control, state);
    let mut pmk: [u8; 32] = [0; 32];
    let derived = credentials.pmk(&mut pmk, bss.ssid.as_str());
    let error = match derived {
        Err(_) => StaError::InvalidPskLength,
        Ok(()) => StaError::NoKeySlotsAvailable,
    };
    if derived.is_ok() {
        if e.is_some() {
            proof {
                assert(a is Some && b is Some && c is Some && d is Some);
            }
            let keys = PreparedKeys {
                pmk,
                gtk_key_slots: [a.unwrap(), b.unwrap(), c.unwrap(), d.unwrap()],
                ptk_key_slot: e.unwrap(),
            };
            proof {
                assert(keys.gtk_key_slots@[0] == a->Some_0);
                assert(keys.gtk_key_slots@[1] == b->Some_0);
                assert(keys.gtk_key_slots@[2] == c->Some_0);
                assert(keys.gtk_key_slots@[3] == d->Some_0);
                assert forall|slot: int| 0 <= slot < KEY_SLOT_COUNT implies keys.uses(slot) == (slot
                    == a->Some_0.key_slot || slot == b->Some_0.key_slot || slot
                    == c->Some_0.key_slot || slot == d->Some_0.key_slot || slot
                    == e->Some_0.key_slot) by {
                    if keys.uses(slot) && slot != e->Some_0.key_slot {
                        let i = choose|i: int|
                            0 <= i < 4 && (#[trigger] keys.gtk_key_slots@[i]).key_slot == slot;
                        assert(i == 0 || i == 1 || i == 2 || i == 3);
                    }
                }
            }
            return Ok(Some(keys));
        }
    }
    proof {
        lemma_no_slot_free(old(state).key_slot_manager, KEY_SLOT_COUNT as int);
    }
    release_slot(&mut state.key_slot_manager, e);
    release_slot(&mut state.key_slot_manager, d);
    release_slot(&mut state.key_slot_manager, c);
    release_slot(&mut state.key_slot_manager, b);
    release_slot(&mut state.key_slot_manager, a);
    assert(state.key_slot_manager.commands@.subrange(
        0,
        old(state).key_slot_manager.commands@.len() as int,
    ) =~= old(state).key_slot_manager.commands@);
    Err(error)
}

/// Set the receive filters to the specified addresses, so that frames from the access point are
/// received.
pub fn configure_rx_filters(rx_interface: &mut RxInterface, own_address: MACAddress, bss: &BSS)
    ensures
        *final(rx_interface) == (RxInterface {
            receiver_address_filter: Some(own_address.0),
            bssid_filter: Some(bss.bssid.0),
            ..*old(rx_interface)
        }),
{
    rx_interface.set_filter(RxFilterBank::ReceiverAddress, own_address.0);
    rx_interface.set_filter(RxFilterBank::Bssid, bss.bssid.0);
}

/// A connection that is being established.
pub struct ConnectionOperation {
    /// The channel lock.
    pub bringup_operation: InterfaceBringupOperation,
    /// The router operation.
    pub router_operation: RxRouterScopedOperation,
    /// Keys, if the connection is protected.
    pub keys: Option<PreparedKeys>,
}

/// Lock the channel of the network, as the first step of connecting to it.
pub fn begin_bringup(control: &LMacInterfaceControl, state: &mut SharedLMacState, bss: &BSS)
    -> (result: Result<InterfaceBringupOperation, StaError>)
    requires
        control.wf(),
        old(state).channel_state.wf(),
    ensures
        final(state).channel_state.wf(),
        final(state).key_slot_manager == old(state).key_slot_manager,
        exists|locked: Result<(), LMacError>|
            {
                &&& #[trigger] final(state).channel_state.is_after_acquire(
                    old(state).channel_state,
                    control.interface,
                    bss.channel,
                    locked,
                )
                &&& result is Ok == locked is Ok
                &&& result matches Err(error) ==> locked is Err && error == StaError::LMacError(
                    locked->Err_0,
                )
            },
        result matches Ok(operation) ==> operation.interface == control.interface,
{
    match control.begin_interface_bringup_operation(state, bss.channel) {
        Ok(operation) => Ok(operation),
        Err(error) => Err(StaError::LMacError(error)),
    }
}

/// Take the step from authentication to association, or on to the handshake: from now on the frames
/// of the next step are routed to it.
pub fn enter_step(
    router: &mut StaRxRouter,
    router_operation: &mut RxRouterScopedOperation,
    step: StaRxRouterOperation,
) -> (entered: bool)
    requires
        old(router).wf(),
        old(router).state(old(router_operation).router_queue).operation_state is Some,
    ensures
        final(router).wf(),
        *final(router_operation) == *old(router_operation),
        final(router).keeps(*old(router), old(router_operation).router_queue.spec_opposite()),
        entered == old(router).state(
            old(router_operation).router_queue.spec_opposite(),
        ).operation_state is None,
        final(router).state(old(router_operation).router_queue).operation_state == if entered {
            Some(step)
        } else {
            old(router).state(old(router_operation).router_queue).operation_state
        },
{
    router_operation.transition(router, step).is_ok()
}

/// How far a connection is established.
#[derive(Clone, Copy, Debug, PartialEq, Eq, Structural)]
pub enum ConnectionPhase {
    /// The response to the request for authentication is awaited.
    Authenticating,
    /// The response to the request for association is awaited.
    Associating,
    /// The access point has assigned an association ID, and the handshake is under way.
    Handshaking(u16),
    /// The access point has assigned an association ID, and nothing is left to do.
    Established(u16),
}

/// Where a response leads.
pub open spec fn next_phase(phase: ConnectionPhase, response: Seq<u8>, protected: bool) -> Result<
    ConnectionPhase,
    StaError,
> {
    match phase {
        ConnectionPhase::Authenticating => {
            if !has_mgmt_body(response, 6) {
                Err(StaError::FrameDeserializationFailed)
            } else if mgmt_field(response, 4) == STATUS_SUCCESS {
                Ok(ConnectionPhase::Associating)
            } else {
                Err(StaError::AuthenticationFailure(mgmt_field(response, 4) as u16))
            }
        },
        ConnectionPhase::Associating => {
            if !is_association_response(response) {
                Err(StaError::FrameDeserializationFailed)
            } else if mgmt_field(response, 4) != 0 && mgmt_field(response, 2) == STATUS_SUCCESS {
                let aid = (mgmt_field(response, 4) % 0x4000) as u16;
                Ok(
                    if protected {
                        ConnectionPhase::Handshaking(aid)
                    } else {
                        ConnectionPhase::Established(aid)
                    },
                )
            } else {
                Err(StaError::AssociationFailure(mgmt_field(response, 2) as u16))
            }
        },
        other => Ok(other),
    }
}

/// What the response to a step leads to: the phase that follows, and the router operation that goes
/// with it.
pub open spec fn response_taken(
    phase: ConnectionPhase,
    response: Seq<u8>,
    protected: bool,
    own_address: MACAddress,
    before: Option<StaRxRouterOperation>,
    after: Option<StaRxRouterOperation>,
    result: Result<ConnectionPhase, StaError>,
) -> bool {
    &&& result == next_phase(phase, response, protected)
    &&& after == if result != Ok::<ConnectionPhase, StaError>(phase) {
        match result {
            Ok(ConnectionPhase::Associating) => Some(
                StaRxRouterOperation::Associating { own_address },
            ),
            Ok(ConnectionPhase::Handshaking(_)) => Some(
                StaRxRouterOperation::CryptoHandshake { own_address },
            ),
            _ => before,
        }
    } else {
        before
    }
}

/// Whether the keys of a connection are in use, if it has any: they replace those of an earlier
/// connection, whose slots are given back.
pub open spec fn keys_in_use(
    keys: Option<PreparedKeys>,
    negotiated: Option<(SecurityAssociations, Message3Replay)>,
    bssid: [u8; 6],
    before: StaTxRx,
    after: StaTxRx,
    state: SharedLMacState,
    state_after: SharedLMacState,
) -> bool {
    match (keys, negotiated) {
        (Some(keys), Some((associations, replay))) => {
            &&& after.crypto_state matches Some(crypto)
            &&& crypto.wf()
            &&& crypto == (CryptoState {
                message3_replay: replay,
                gtk_key_slots: keys.gtk_key_slots,
                last_group_message: None,
                group_request_counter: 0,
                ptk_key_slot: keys.ptk_key_slot,
                security_associations: associations,
            })
            &&& after == (StaTxRx {
                crypto_state: Some(crypto),
                ..before
            })
            &&& exists|programmed: Seq<KeyCommand>|
                {
                    &&& #[trigger] keys_programmed(
                        state.key_slot_manager.commands@,
                        programmed,
                        crypto,
                        bssid,
                    )
                    &&& state_after.key_slot_manager.commands@ == match before.crypto_state {
                        Some(previous) => programmed + clear_commands(
                            previous.gtk_key_slots@,
                            previous.ptk_key_slot,
                        ),
                        None => programmed,
                    }
                }
            &&& forall|slot: int|
                0 <= slot < KEY_SLOT_COUNT ==> #[trigger] state_after.key_slot_manager.is_free(slot)
                    == (state.key_slot_manager.is_free(slot) || (before.crypto_state matches Some(previous) && is_among(
                    slot,
                    previous.gtk_key_slots@,
                    previous.ptk_key_slot,
                )))
        },
        _ => {
            &&& after == before
            &&& state_after == state
        },
    }
}

/// What a response leads to in an attempt to connect, which needs the handshake if it has keys.
pub open spec fn attempt_continued(
    attempt: ConnectionOperation,
    before: StaRxRouter,
    after: StaRxRouter,
    phase: ConnectionPhase,
    response: Seq<u8>,
    own_address: MACAddress,
    result: Result<ConnectionPhase, StaError>,
) -> bool {
    let queue = attempt.router_operation.router_queue;
    &&& after.keeps(before, queue.spec_opposite())
    &&& response_taken(
        phase,
        response,
        attempt.keys is Some,
        own_address,
        before.state(queue).operation_state,
        after.state(queue).operation_state,
        result,
    )
}

/// What the end of an attempt that succeeded leads to: its keys are in use, its router operation has
/// ended, and the channel stays locked.
pub open spec fn attempt_completed(
    attempt: ConnectionOperation,
    before: (StaTxRx, SharedLMacState, StaRxRouter),
    after: (StaTxRx, SharedLMacState, StaRxRouter),
    bssid: MACAddress,
    negotiated: Option<(SecurityAssociations, Message3Replay)>,
) -> bool {
    let queue = attempt.router_operation.router_queue;
    &&& after.2.keeps(before.2, queue.spec_opposite())
    &&& after.2.state(queue).operation_state is None
    &&& after.2.completion_signaled
    &&& after.1.channel_state == before.1.channel_state
    &&& keys_in_use(attempt.keys, negotiated, bssid.0, before.0, after.0, before.1, after.1)
}

/// What giving up an attempt leads to: nothing of it is left in the router, the filters, the channel
/// state and the key slots.
pub open spec fn attempt_given_up(
    attempt: ConnectionOperation,
    before: (SharedLMacState, StaRxRouter, RxInterface),
    after: (SharedLMacState, StaRxRouter, RxInterface),
) -> bool {
    let queue = attempt.router_operation.router_queue;
    let manager = after.0.key_slot_manager;
    &&& after.1.keeps(before.1, queue.spec_opposite())
    &&& after.1.state(queue).operation_state is None
    &&& after.1.completion_signaled
    &&& after.0.channel_state.is_after_unlock(
        before.0.channel_state,
        attempt.bringup_operation.interface,
    )
    &&& after.2 == (RxInterface {
        receiver_address_filter: None,
        bssid_filter: None,
        ..before.2
    })
    &&& manager.commands@ == match attempt.keys {
        Some(keys) => before.0.key_slot_manager.commands@ + clear_commands(
            keys.gtk_key_slots@,
            keys.ptk_key_slot,
        ),
        None => before.0.key_slot_manager.commands@,
    }
    &&& forall|slot: int|
        0 <= slot < KEY_SLOT_COUNT ==> #[trigger] manager.is_free(slot) == (
        before.0.key_slot_manager.is_free(slot) || (attempt.keys matches Some(keys) && keys.uses(
            slot,
        )))
}

impl ConnectionOperation {
    /// Take the response to a step, and enter the next one.
    ///
    /// From then on the frames of the next step are routed to it.
    pub fn run(
        &mut self,
        router: &mut StaRxRouter,
        phase: ConnectionPhase,
        response: &[u8],
        own_address: MACAddress,
    ) -> (result: Result<ConnectionPhase, StaError>)
        requires
            old(router).wf(),
            old(router).state(old(self).router_operation.router_queue).operation_state is Some,
            old(router).state(
                old(self).router_operation.router_queue.spec_opposite(),
            ).operation_state is None,
        ensures
            *final(self) == *old(self),
            final(router).wf(),
            attempt_continued(
                *old(self),
                *old(router),
                *final(router),
                phase,
                response@,
                own_address,
                result,
            ),
    {
        match phase {
            ConnectionPhase::Authenticating => {
                match do_auth(response) {
                    Ok(()) => {},
                    Err(error) => {
                        return Err(error);
                    },
                }
                let _ = enter_step(
                    router,
                    &mut self.router_operation,
                    StaRxRouterOperation::Associating { own_address },
                );
                Ok(ConnectionPhase::Associating)
            },
            ConnectionPhase::Associating => {
                let aid: u16 = match do_assoc(response) {
                    Ok(aid) => aid,
                    Err(error) => {
                        return Err(error);
                    },
                };
                if self.keys.is_some() {
                    let _ = enter_step(
                        router,
                        &mut self.router_operation,
                        StaRxRouterOperation::CryptoHandshake { own_address },
                    );
                    Ok(ConnectionPhase::Handshaking(aid))
                } else {
                    Ok(ConnectionPhase::Established(aid))
                }
            },
            other => Ok(other),
        }
    }

    /// The connection stands: its keys are installed, the router operation ends and the channel
    /// stays locked. The receive filters stay as they are.
    ///
    /// `negotiated` are the keys from the handshake, which a protected connection has. They replace
    /// those of an earlier connection, whose slots are given back.
    pub fn complete(
        self,
        sta_tx_rx: &mut StaTxRx,
        state: &mut SharedLMacState,
        router: &mut StaRxRouter,
        bssid: MACAddress,
        negotiated: Option<(SecurityAssociations, Message3Replay)>,
    )
        requires
            old(router).wf(),
            self.keys is Some == negotiated is Some,
            self.keys matches Some(keys) ==> keys.wf(),
            negotiated matches Some((associations, _)) ==> associations.wf(),
            negotiated is Some ==> bssid@[0] & 1 == 0,
            old(sta_tx_rx).crypto_state matches Some(previous) ==> previous.wf(),
        ensures
            final(router).wf(),
            attempt_completed(
                self,
                (*old(sta_tx_rx), *old(state), *old(router)),
                (*final(sta_tx_rx), *final(state), *final(router)),
                bssid,
                negotiated,
            ),
    {
        if let Some(keys) = self.keys {
            if let Some((associations, replay)) = negotiated {
                let mut crypto_state = Some(
                    CryptoState::new(
                        &mut state.key_slot_manager,
                        keys.gtk_key_slots,
                        keys.ptk_key_slot,
                        bssid.0,
                        associations,
                        replay,
                    ),
                );
                let ghost programmed = state.key_slot_manager.commands@;
                std::mem::swap(&mut crypto_state, &mut sta_tx_rx.crypto_state);
                if let Some(previous) = crypto_state {
                    release_slots(
                        &mut state.key_slot_manager,
                        previous.gtk_key_slots,
                        previous.ptk_key_slot,
                    );
                }
                assert(keys_programmed(
                    old(state).key_slot_manager.commands@,
                    programmed,
                    sta_tx_rx.crypto_state->Some_0,
                    bssid.0,
                ));
            }
        }
        self.router_operation.complete(router);
        self.bringup_operation.complete(state);
    }

    /// Give up: the receive filters are cleared, the router operation ends, the channel is unlocked
    /// and the key slots are given back.
    pub fn abort(
        self,
        state: &mut SharedLMacState,
        router: &mut StaRxRouter,
        rx_interface: &mut RxInterface,
    )
        requires
            old(router).wf(),
            old(state).channel_state.wf(),
            self.bringup_operation.interface < crate::radio::INTERFACE_COUNT,
            self.keys matches Some(keys) ==> keys.wf(),
        ensures
            final(router).wf(),
            final(state).channel_state.wf(),
            attempt_given_up(
                self,
                (*old(state), *old(router), *old(rx_interface)),
                (*final(state), *final(router), *final(rx_interface)),
            ),
    {
        rx_interface.clear_filter(RxFilterBank::ReceiverAddress);
        rx_interface.clear_filter(RxFilterBank::Bssid);
        self.router_operation.complete(router);
        self.bringup_operation.abort(state);
        let ghost unlocked = *state;
        if let Some(keys) = self.keys {
            release_keys(state, keys);
            assert forall|slot: int| 0 <= slot < KEY_SLOT_COUNT implies #[trigger] state
                .key_slot_manager.is_free(slot) == (old(state).key_slot_manager.is_free(slot)
                || keys.uses(slot)) by {
                assert(unlocked.key_slot_manager.is_free(slot) == old(
                    state,
                ).key_slot_manager.is_free(slot));
            }
        }
    }
}

/// Give back all key slots of a connection.
pub fn release_keys(state: &mut SharedLMacState, keys: PreparedKeys)
    requires
        keys.wf(),
    ensures
        final(state).channel_state == old(state).channel_state,
        final(state).key_slot_manager.commands@ == old(state).key_slot_manager.commands@
            + clear_commands(keys.gtk_key_slots@, keys.ptk_key_slot),
        forall|slot: int|
            0 <= slot < KEY_SLOT_COUNT ==> #[trigger] final(state).key_slot_manager.is_free(slot)
                == (old(state).key_slot_manager.is_free(slot) || keys.uses(slot)),
{
    release_slots(&mut state.key_slot_manager, keys.gtk_key_slots, keys.ptk_key_slot);
}

/// Clear the slots of a connection, and give them back.
fn release_slots(manager: &mut KeySlotManager, gtk_key_slots: [KeySlot; 4], ptk_key_slot: KeySlot)
    requires
        ptk_key_slot.wf(),
        forall|i: int| 0 <= i < 4 ==> (#[trigger] gtk_key_slots@[i]).wf(),
    ensures
        final(manager).commands@ == old(manager).commands@ + clear_commands(
            gtk_key_slots@,
            ptk_key_slot,
        ),
        forall|slot: int|
            0 <= slot < KEY_SLOT_COUNT ==> #[trigger] final(manager).is_free(slot) == (old(
                manager,
            ).is_free(slot) || is_among(slot, gtk_key_slots@, ptk_key_slot)),
{
    assert(gtk_key_slots@[0].wf() && gtk_key_slots@[1].wf() && gtk_key_slots@[2].wf()
        && gtk_key_slots@[3].wf());
    manager.release_key_slot(gtk_key_slots[0].key_slot());
    manager.release_key_slot(gtk_key_slots[1].key_slot());
    manager.release_key_slot(gtk_key_slots[2].key_slot());
    manager.release_key_slot(gtk_key_slots[3].key_slot());
    manager.release_key_slot(ptk_key_slot.key_slot());
    assert(manager.commands@ =~= old(manager).commands@ + clear_commands(
        gtk_key_slots@,
        ptk_key_slot,
    ));
    assert forall|slot: int| 0 <= slot < KEY_SLOT_COUNT implies is_among(
        slot,
        gtk_key_slots@,
        ptk_key_slot,
    ) == (slot == gtk_key_slots@[0].key_slot || slot == gtk_key_slots@[1].key_slot || slot
        == gtk_key_slots@[2].key_slot || slot == gtk_key_slots@[3].key_slot || slot
        == ptk_key_slot.key_slot) by {
        if is_among(slot, gtk_key_slots@, ptk_key_slot) && slot != ptk_key_slot.key_slot {
            let i = choose|i: int| 0 <= i < 4 && (#[trigger] gtk_key_slots@[i]).key_slot == slot;
            assert(i == 0 || i == 1 || i == 2 || i == 3);
        }
    }
}

} // verus!

//! Searching for networks.
use vstd::prelude::*;

use crate::bytes::{bytes_equal, le_value, read_le48};
use crate::elements::{find_ssid, first_ssid};
use crate::lmac::LMacError;
use crate::mgmt::{beacon_elements, is_beacon, parse_beacon};
use crate::sta::bss::{describes_bss, BSS};
use crate::sta::StaError;
use crate::util::operations::scan::PostChannelScanAction;
use heapless::index_map::FnvIndexMap;
use std::collections::BTreeMap;
use vstd::utf8::decode_utf8;

verus! {

/// How many networks one index can name.
const INDEX_CAPACITY: usize = 64;

/// An index from the addresses of networks, as numbers, to their places in a list.
#[verifier::external_body]
pub struct BssIndex {
    map: FnvIndexMap<u64, usize, INDEX_CAPACITY>,
}

/// What an index holds.
pub uninterp spec fn index_contents(index: BssIndex) -> Map<u64, usize>;

/// Create an empty index.
///
/// Calls `heapless::index_map::FnvIndexMap::new`.
#[verifier::external_body]
fn new_index() -> (index: BssIndex)
    ensures
        index_contents(index).dom() == Set::<u64>::empty(),
{
    BssIndex { map: FnvIndexMap::new() }
}

/// Check whether an address is in the index.
///
/// Calls `heapless::index_map::IndexMap::contains_key`.
#[verifier::external_body]
fn index_contains(index: &BssIndex, address: u64) -> (contained: bool)
    ensures
        contained == index_contents(*index).contains_key(address),
{
    index.map.contains_key(&address)
}

/// Put an address that is not in the index yet into it, while there is room.
///
/// Calls `heapless::index_map::IndexMap::insert`.
#[verifier::external_body]
fn index_insert(index: &mut BssIndex, address: u64, place: usize)
    requires
        index_contents(*old(index)).len() < INDEX_CAPACITY,
        !index_contents(*old(index)).contains_key(address),
    ensures
        index_contents(*final(index)) == index_contents(*old(index)).insert(address, place),
{
    let _ = index.map.insert(address, place);
}

/// The address of a network as a number.
pub open spec fn address_number(bssid: Seq<u8>) -> u64 {
    le_value(bssid) as u64
}

/// A list of at most `capacity` networks with different addresses.
///
/// Each index names as many networks as it can; the next one goes on from there.
pub struct BssList {
    indexes: Vec<BssIndex>,
    found: Vec<BSS>,
    capacity: usize,
}

impl View for BssList {
    type V = Seq<BSS>;

    closed spec fn view(&self) -> Seq<BSS> {
        self.found@
    }
}

impl BssList {
    /// How many networks fit.
    pub closed spec fn spec_capacity(&self) -> usize {
        self.capacity
    }

    /// The index that names the network at `place`.
    closed spec fn index_of(&self, place: int) -> Map<u64, usize> {
        index_contents(self.indexes@[place / INDEX_CAPACITY as int])
    }

    /// Whether the index at `number` names only networks that it is to name.
    closed spec fn is_sound(&self, number: int) -> bool {
        let contents = index_contents(self.indexes@[number]);
        &&& contents.dom().finite()
        &&& contents.len() <= self.found@.len() - INDEX_CAPACITY * number
        &&& forall|address: u64| #[trigger]
            contents.contains_key(address) ==> {
                let place = contents[address];
                &&& place < self.found@.len()
                &&& address_number(self.found@[place as int].bssid@) == address
            }
    }

    /// The indexes name exactly the networks in the list, and each address once.
    pub closed spec fn wf(&self) -> bool {
        &&& self.found@.len() <= self.capacity
        &&& INDEX_CAPACITY * (self.indexes@.len() - 1) < self.found@.len() <= INDEX_CAPACITY
            * self.indexes@.len()
        &&& forall|i: int|
            0 <= i < self.found@.len() ==> self.index_of(i).contains_pair(
                address_number((#[trigger] self.found@[i]).bssid@),
                i as usize,
            )
        &&& forall|number: int|
            0 <= number < self.indexes@.len() ==> #[trigger] self.is_sound(number)
        &&& self.names_once()
    }

    /// No two networks in the list have one address.
    closed spec fn names_once(&self) -> bool {
        forall|i: int, j: int|
            0 <= i < j < self.found@.len() ==> address_number((#[trigger] self.found@[i]).bssid@)
                != address_number((#[trigger] self.found@[j]).bssid@)
    }

    /// Whether a network with the given address is in the list.
    pub open spec fn knows(&self, address: u64) -> bool {
        exists|i: int|
            0 <= i < self@.len() && address_number((#[trigger] self@[i]).bssid@) == address
    }

    /// Create an empty list.
    pub fn new(capacity: usize) -> (list: Self)
        ensures
            list.wf(),
            list@ == Seq::<BSS>::empty(),
            list.spec_capacity() == capacity,
    {
        BssList { indexes: Vec::new(), found: Vec::new(), capacity }
    }

    /// Check whether a network is in the list.
    pub fn contains(&self, bssid: &[u8; 6]) -> (known: bool)
        requires
            self.wf(),
        ensures
            known == self.knows(address_number(bssid@)),
    {
        assert(bssid@.subrange(0, 6) =~= bssid@);
        let address: u64 = read_le48(bssid, 0);
        let mut number: usize = 0;
        while number < self.indexes.len()
            invariant
                number <= self.indexes@.len(),
                self.wf(),
                address == address_number(bssid@),
                forall|i: int|
                    0 <= i < self.found@.len() && i < INDEX_CAPACITY * number ==> address_number(
                        (#[trigger] self.found@[i]).bssid@,
                    ) != address,
            decreases self.indexes@.len() - number,
        {
            if index_contains(&self.indexes[number], address) {
                proof {
                    assert(self.is_sound(number as int));
                    let place = index_contents(self.indexes@[number as int])[address];
                    assert(address_number(self@[place as int].bssid@) == address);
                }
                return true;
            }
            assert forall|i: int|
                0 <= i < self.found@.len() && i < INDEX_CAPACITY * (number + 1) implies
                address_number((#[trigger] self.found@[i]).bssid@) != address by {
                if i >= INDEX_CAPACITY * number {
                    assert(i / INDEX_CAPACITY as int == number);
                    assert(self.index_of(i).contains_pair(
                        address_number(self.found@[i].bssid@),
                        i as usize,
                    ));
                }
            }
            number += 1;
        }
        false
    }

    /// Check whether the list is full.
    pub fn is_full(&self) -> (full: bool)
        requires
            self.wf(),
        ensures
            full == (self@.len() == self.spec_capacity()),
    {
        self.found.len() == self.capacity
    }

    /// Put a network into the list.
    pub fn insert(&mut self, bss: BSS)
        requires
            old(self).wf(),
            !old(self).knows(address_number(bss.bssid@)),
            old(self)@.len() < old(self).spec_capacity(),
        ensures
            final(self).wf(),
            final(self)@ == old(self)@.push(bss),
            final(self).spec_capacity() == old(self).spec_capacity(),
    {
        assert(bss.bssid@.subrange(0, 6) =~= bss.bssid@);
        let address: u64 = read_le48(&bss.bssid.0, 0);
        let place: usize = self.found.len();
        if place % INDEX_CAPACITY == 0 {
            self.indexes.push(new_index());
        }
        let ghost number = place as int / INDEX_CAPACITY as int;
        let ghost opened = self.indexes@;
        assert(opened.len() == number + 1);
        let ghost before = index_contents(opened[number]);
        proof {
            if number < old(self).indexes@.len() {
                assert(old(self).is_sound(number));
            }
            if before.contains_key(address) {
                assert(old(self).knows(address));
            }
        }
        if let Some(mut index) = self.indexes.pop() {
            index_insert(&mut index, address, place);
            self.indexes.push(index);
        }
        self.found.push(bss);
        proof {
            let after = index_contents(self.indexes@[number]);
            assert(after == before.insert(address, place));
            assert forall|i: int| 0 <= i < self.found@.len() implies self.index_of(
                i,
            ).contains_pair(address_number((#[trigger] self.found@[i]).bssid@), i as usize) by {
                if i < place {
                    assert(self.found@[i] == old(self).found@[i]);
                    assert(old(self).index_of(i).contains_pair(
                        address_number(old(self).found@[i].bssid@),
                        i as usize,
                    ));
                }
            }
            assert forall|other: int| 0 <= other < self.indexes@.len() implies
                #[trigger] self.is_sound(other) by {
                if other < old(self).indexes@.len() {
                    assert(old(self).is_sound(other));
                }
                let contents = index_contents(self.indexes@[other]);
                assert forall|key: u64| #[trigger] contents.contains_key(key) implies {
                    let spot = contents[key];
                    &&& spot < self.found@.len()
                    &&& address_number(self.found@[spot as int].bssid@) == key
                } by {
                    if !(other == number && key == address) {
                        let earlier = index_contents(opened[other]);
                        assert(earlier.contains_key(key));
                        assert(earlier[key] == contents[key]);
                    }
                }
            }
            assert forall|i: int, j: int| 0 <= i < j < self.found@.len() implies address_number(
                (#[trigger] self.found@[i]).bssid@,
            ) != address_number((#[trigger] self.found@[j]).bssid@) by {
                if j == place {
                    assert(self.found@[i] == old(self)@[i]);
                }
            }
        }
    }

    /// Get a network.
    pub fn get(&self, place: usize) -> (bss: Option<&BSS>)
        ensures
            bss is Some == (place < self@.len()),
            bss matches Some(bss) ==> *bss == self@[place as int],
    {
        if place < self.found.len() {
            Some(&self.found[place])
        } else {
            None
        }
    }
}

/// Compare two strings.
fn strings_equal(a: &str, b: &str) -> (equal: bool)
    ensures
        equal == (a@ == b@),
{
    let equal = bytes_equal(a.as_bytes(), b.as_bytes());
    proof {
        vstd::utf8::encode_utf8_decode_utf8(a@);
        vstd::utf8::encode_utf8_decode_utf8(b@);
    }
    equal
}

/// Whether a frame is a beacon of a network with the given SSID.
pub open spec fn beacon_of(frame: Seq<u8>, ssid: Seq<char>) -> bool {
    &&& is_beacon(frame)
    &&& first_ssid(beacon_elements(frame)) matches Some(found) && decode_utf8(found) == ssid
}

/// What a frame leads to while a network is searched for.
pub open spec fn search_continued(
    frame: Seq<u8>,
    rssi: i8,
    ssid: Seq<char>,
    action: PostChannelScanAction<BSS>,
) -> bool {
    &&& action is Stop == (beacon_of(frame, ssid) && describes_bss(frame))
    &&& action matches PostChannelScanAction::Stop(bss) ==> bss.described_by(frame, rssi)
}

/// Look at a frame received while searching for the network with the given SSID.
///
/// The search stops when the first beacon with the specified SSID is received.
pub fn search_for_bss(frame: &[u8], rssi: i8, ssid: &str) -> (action: PostChannelScanAction<BSS>)
    ensures
        search_continued(frame@, rssi, ssid@, action),
{
    let beacon = match parse_beacon(frame) {
        Some(beacon) => beacon,
        None => {
            return PostChannelScanAction::Continue;
        },
    };
    match find_ssid(&beacon.elements) {
        Some(found) => {
            if !strings_equal(found.as_str(), ssid) {
                return PostChannelScanAction::Continue;
            }
        },
        None => {
            return PostChannelScanAction::Continue;
        },
    }
    match BSS::from_beacon_like(frame, rssi) {
        Some(bss) => PostChannelScanAction::Stop(bss),
        None => PostChannelScanAction::Continue,
    }
}

/// Turn the outcome of a search into its result.
pub fn search_result(outcome: Result<Option<BSS>, LMacError>) -> (result: Result<BSS, StaError>)
    ensures
        result == match outcome {
            Ok(Some(bss)) => Ok(bss),
            Ok(None) => Err(StaError::UnableToFindEss),
            Err(error) => Err(StaError::LMacError(error)),
        },
{
    match outcome {
        Ok(Some(bss)) => Ok(bss),
        Ok(None) => Err(StaError::UnableToFindEss),
        Err(lmac_error) => Err(StaError::LMacError(lmac_error)),
    }
}

/// Turn the outcome of a scan into its result.
pub fn scan_result(outcome: Result<Option<()>, LMacError>) -> (result: Result<(), StaError>)
    ensures
        result == match outcome {
            Ok(_) => Ok(()),
            Err(error) => Err(StaError::LMacError(error)),
        },
{
    match outcome {
        Ok(_) => Ok(()),
        Err(lmac_error) => Err(StaError::LMacError(lmac_error)),
    }
}

/// What a frame leads to while all networks are enumerated: a network that is not known yet is put
/// into the list, and the scan stops once the list is full.
pub open spec fn network_listed(
    before: BssList,
    after: BssList,
    frame: Seq<u8>,
    rssi: i8,
    action: PostChannelScanAction<()>,
) -> bool {
    &&& after.spec_capacity() == before.spec_capacity()
    &&& action is Stop == (after@.len() == after.spec_capacity())
    &&& if is_beacon(frame) && describes_bss(frame) && !before.knows(
        address_number(frame.subrange(16, 22)),
    ) && before@.len() < before.spec_capacity() {
        &&& after@.len() == before@.len() + 1
        &&& after@.drop_last() == before@
        &&& after@.last().described_by(frame, rssi)
    } else {
        after@ == before@
    }
}

/// Look at a frame received while enumerating all networks.
///
/// The scan stops as soon as the list is full.
pub fn enumerate_bss(list: &mut BssList, frame: &[u8], rssi: i8) -> (action: PostChannelScanAction<
    (),
>)
    requires
        old(list).wf(),
    ensures
        final(list).wf(),
        network_listed(*old(list), *final(list), frame@, rssi, action),
{
    proof {
        lemma_list_bounded(*list);
    }
    if !list.is_full() {
        if let Some(beacon) = parse_beacon(frame) {
            if !list.contains(&beacon.bssid.0) {
                if let Some(bss) = BSS::from_beacon_like(frame, rssi) {
                    list.insert(bss);
                    assert(list@.drop_last() =~= old(list)@);
                }
            }
        }
    }
    if list.is_full() {
        PostChannelScanAction::Stop(())
    } else {
        PostChannelScanAction::Continue
    }
}

/// There are never more networks in a list than fit.
proof fn lemma_list_bounded(list: BssList)
    requires
        list.wf(),
    ensures
        list@.len() <= list.spec_capacity(),
{
}

/// Look at a frame received while scanning continuously.
///
/// The callback is run whenever a new network is found. When it returns false the scan stops.
/// Networks are listed under their addresses, as numbers.
pub fn scan_continuously<F: Fn(&BSS) -> bool>(
    bss_list: &mut BTreeMap<u64, BSS>,
    frame: &[u8],
    rssi: i8,
    bss_found_cb: F,
) -> (action: PostChannelScanAction<()>)
    requires
        forall|bss: BSS| call_requires(bss_found_cb, (&bss,)),
    ensures
        ({
            let address = address_number(frame@.subrange(16, 22));
            if is_beacon(frame@) && describes_bss(frame@) && !old(bss_list)@.contains_key(address) {
                exists|bss: BSS|
                    {
                        &&& #[trigger] bss.described_by(frame@, rssi)
                        &&& final(bss_list)@ == old(bss_list)@.insert(address, bss)
                        &&& call_ensures(bss_found_cb, (&bss,), action is Continue)
                    }
            } else {
                &&& final(bss_list)@ == old(bss_list)@
                &&& action is Continue
            }
        }),
{
    let beacon = match parse_beacon(frame) {
        Some(beacon) => beacon,
        None => {
            return PostChannelScanAction::Continue;
        },
    };
    assert(beacon.bssid@.subrange(0, 6) =~= beacon.bssid@);
    let address: u64 = read_le48(&beacon.bssid.0, 0);
    if bss_list.contains_key(&address) {
        return PostChannelScanAction::Continue;
    }
    match BSS::from_beacon_like(frame, rssi) {
        Some(bss) => {
            let action = if bss_found_cb(&bss) {
                PostChannelScanAction::Continue
            } else {
                PostChannelScanAction::Stop(())
            };
            let _ = bss_list.insert(address, bss);
            action
        },
        None => PostChannelScanAction::Continue,
    }
}

/// No network is listed twice.
pub proof fn listed_networks_differ(list: BssList, i: int, j: int)
    requires
        list.wf(),
        0 <= i < list@.len(),
        0 <= j < list@.len(),
        i != j,
    ensures
        address_number(list@[i].bssid@) != address_number(list@[j].bssid@),
{
    if i < j {
        assert(address_number(list.found@[i].bssid@) != address_number(list.found@[j].bssid@));
    } else {
        assert(address_number(list.found@[j].bssid@) != address_number(list.found@[i].bssid@));
    }
}

} // verus!

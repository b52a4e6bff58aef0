//! MAC addresses.
use vstd::prelude::*;

use crate::bytes::bytes_equal;

verus! {

/// A 48 bit MAC address.
#[derive(Clone, Copy, Debug, Eq, Hash, PartialOrd, Ord)]
pub struct MACAddress(pub [u8; 6]);

impl View for MACAddress {
    type V = Seq<u8>;

    open spec fn view(&self) -> Seq<u8> {
        self.0@
    }
}

impl PartialEq for MACAddress {
    fn eq(&self, other: &Self) -> (equal: bool) {
        let equal = bytes_equal(&self.0, &other.0);
        assert(equal == (*self == *other)) by {
            assert(self.0@ == other.0@ ==> self.0 =~= other.0);
        }
        equal
    }
}

impl vstd::std_specs::cmp::PartialEqSpecImpl for MACAddress {
    open spec fn obeys_eq_spec() -> bool {
        true
    }

    open spec fn eq_spec(&self, other: &Self) -> bool {
        *self == *other
    }
}

/// The octets of the address that every station listens to.
pub const BROADCAST: [u8; 6] = [0xff, 0xff, 0xff, 0xff, 0xff, 0xff];

/// The octets of the address that stands for no station.
pub const ZERO: [u8; 6] = [0, 0, 0, 0, 0, 0];

impl MACAddress {
    /// Whether the individual/group bit is set.
    pub open spec fn spec_is_multicast(&self) -> bool {
        self@[0] & 1 != 0
    }

    /// Check whether the address is a group address.
    pub fn is_multicast(&self) -> (multicast: bool)
        ensures
            multicast == self.spec_is_multicast(),
    {
        self.0[0] & 1 != 0
    }
}
/// An address is determined by its octets.
pub broadcast proof fn mac_address_extensional(a: MACAddress, b: MACAddress)
    requires
        #[trigger] a@ == #[trigger] b@,
    ensures
        a == b,
{
    assert(a.0 =~= b.0);
}

} // verus!

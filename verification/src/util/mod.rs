//! Utilities that aren't directly part of the stack, but can be of use when implementing an
//! interface.
use vstd::prelude::*;

pub mod operations;
pub mod rx_router;

verus! {

/// Make a valid MAC address of random bytes.
///
/// The group bit is cleared and the locally administered bit is set; all other bits are kept.
pub fn random_mac_address(random: [u8; 6]) -> (address: [u8; 6])
    ensures
        address@ == random@.update(0, (random@[0] & !1) | 2),
        address@[0] & 1 == 0,
        address@[0] & 2 != 0,
{
    let mut address = random;
    address[0] = (address[0] & !1) | 2;
    proof {
        let octet = random@[0];
        assert(((octet & !1) | 2) & 1 == 0 && ((octet & !1) | 2) & 2 != 0) by (bit_vector);
    }
    address
}

} // verus!

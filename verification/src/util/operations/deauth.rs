//! Deauthentication.
use vstd::prelude::*;

use crate::bytes::overwrite;
use crate::mac::MACAddress;
use crate::mgmt::{deauthentication, serialize_deauthentication, REASON_LEAVING_NETWORK};
use crate::radio::{TxMacParameters, TxPhyRate, TxPlcpParameters};
use crate::tx_queue::RetryBehaviour;

verus! {

/// A frame that was written into a transmit buffer, and how it is to be transmitted.
#[derive(Clone, Copy, Debug, PartialEq, Eq, Structural)]
pub struct Transmission {
    /// The length of the frame.
    pub length: usize,
    /// Physical layer parameters.
    pub plcp_parameters: TxPlcpParameters,
    /// MAC parameters.
    pub mac_parameters: TxMacParameters,
    /// What to do if the transmission fails.
    pub retry_behaviour: RetryBehaviour,
}

/// The deauthentication frame that is sent to the access point, or to the station.
pub open spec fn deauthentication_frame(bssid: Seq<u8>, sta_address: Seq<u8>, to_ap: bool) -> Seq<
    u8,
> {
    if to_ap {
        deauthentication(bssid, sta_address, bssid, REASON_LEAVING_NETWORK)
    } else {
        deauthentication(sta_address, bssid, bssid, REASON_LEAVING_NETWORK)
    }
}

/// Write a deauthentication frame.
///
/// The value of the RA and TA fields are shown in the table below.
///
/// `to_ap` | RA | TA
/// -- | -- | --
/// `true` | BSSID | STA address
/// `false` | STA address | BSSID
pub fn deauthenticate(
    buffer: &mut [u8],
    bssid: MACAddress,
    sta_address: MACAddress,
    to_ap: bool,
    rate: TxPhyRate,
) -> (transmission: Transmission)
    requires
        old(buffer)@.len() >= 26,
    ensures
        final(buffer)@ == overwrite(
            old(buffer)@,
            0,
            deauthentication_frame(bssid@, sta_address@, to_ap),
        ),
        transmission == (Transmission {
            length: 26,
            plcp_parameters: TxPlcpParameters { rate },
            mac_parameters: TxMacParameters {
                key_slot_index: None,
                wait_for_ack: true,
                override_seq_num: true,
            },
            retry_behaviour: RetryBehaviour::RetryUntil(7),
        }),
{
    let (receiver_address, transmitter_address) = if to_ap {
        (bssid, sta_address)
    } else {
        (sta_address, bssid)
    };
    let length: usize = serialize_deauthentication(
        receiver_address,
        transmitter_address,
        bssid,
        REASON_LEAVING_NETWORK,
        buffer,
    );
    Transmission {
        length,
        plcp_parameters: TxPlcpParameters { rate },
        mac_parameters: TxMacParameters {
            key_slot_index: None,
            wait_for_ack: true,
            override_seq_num: true,
        },
        retry_behaviour: RetryBehaviour::RetryUntil(7),
    }
}

} // verus!

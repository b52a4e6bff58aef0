//! What is told to the radio, and what it reports, as plain values.
use vstd::prelude::*;

verus! {

/// Number of interfaces of the radio.
pub const INTERFACE_COUNT: usize = 4;
/// Number of key slots of the radio.
pub const KEY_SLOT_COUNT: usize = 25;

/// An access category of enhanced distributed channel access (EDCA).
#[derive(Clone, Copy, Debug, PartialEq, Eq, Structural)]
pub enum EdcaAccessCategory {
    /// AC_BK
    Background,
    /// AC_BE
    BestEffort,
    /// AC_VI
    Video,
    /// AC_VO
    Voice,
}

impl EdcaAccessCategory {
    /// The hardware slot of the category. Slot 0 is that of beacons.
    pub open spec fn spec_hardware_slot(&self) -> usize {
        match self {
            EdcaAccessCategory::Background => 1,
            EdcaAccessCategory::BestEffort => 2,
            EdcaAccessCategory::Video => 3,
            EdcaAccessCategory::Voice => 4,
        }
    }

    /// Get the hardware slot of the category.
    pub fn hardware_slot(&self) -> (slot: usize)
        ensures
            slot == self.spec_hardware_slot(),
    {
        match self {
            EdcaAccessCategory::Background => 1,
            EdcaAccessCategory::BestEffort => 2,
            EdcaAccessCategory::Video => 3,
            EdcaAccessCategory::Voice => 4,
        }
    }
}

/// A transmission rate.
#[derive(Clone, Copy, Debug, PartialEq, Eq, Structural)]
pub enum TxPhyRate {
    /// High rate direct sequence spread spectrum.
    HrDsss {
        /// Index of the rate.
        rate: u8,
        /// Whether the short preamble is used.
        short_preamble: bool,
    },
    /// Orthogonal frequency division multiplexing, in Mbit/s.
    Ofdm(u8),
    /// High throughput.
    Ht {
        /// Modulation and coding scheme.
        mcs_index: u8,
        /// Whether the short guard interval is used.
        short_gi: bool,
    },
}

/// Physical layer parameters of a transmission.
#[derive(Clone, Copy, Debug, PartialEq, Eq, Structural)]
pub struct TxPlcpParameters {
    /// The data rate.
    pub rate: TxPhyRate,
}

/// MAC parameters of a transmission.
#[derive(Clone, Copy, Debug, PartialEq, Eq, Structural)]
pub struct TxMacParameters {
    /// The key slot used for encrypting the frame.
    pub key_slot_index: Option<u8>,
    /// Whether an ACK is expected.
    pub wait_for_ack: bool,
    /// Whether the radio assigns the sequence number.
    pub override_seq_num: bool,
}

/// An error of a transmission.
#[derive(Clone, Copy, Debug, PartialEq, Eq, Structural)]
pub enum TxError {
    /// The channel could not be accessed.
    ChannelAccess,
    /// No CTS arrived.
    CtsTimeout,
    /// No ACK arrived.
    AckTimeout,
    /// The key ID in the frame is not that of the key slot.
    InvalidKeyId,
    /// The radio reported something else.
    Unknown,
    /// The frame is too short.
    BufferTooShort,
    /// The key slot is disabled.
    DisabledKeySlot,
    /// The interface or key slot does not exist.
    OutOfBounds,
    /// The EDCA parameters are invalid.
    InvalidEdcaParameters,
}

/// Up to three rates, one for each retry.
#[derive(Clone, Copy, Debug, PartialEq, Eq, Structural)]
pub enum RetryRates {
    /// No retry.
    Empty,
    /// One retry.
    One(TxPhyRate),
    /// Two retries.
    Two(TxPhyRate, TxPhyRate),
    /// Three retries.
    Three(TxPhyRate, TxPhyRate, TxPhyRate),
}

impl View for RetryRates {
    type V = Seq<TxPhyRate>;

    open spec fn view(&self) -> Seq<TxPhyRate> {
        match *self {
            RetryRates::Empty => seq![],
            RetryRates::One(first) => seq![first],
            RetryRates::Two(first, second) => seq![first, second],
            RetryRates::Three(first, second, third) => seq![first, second, third],
        }
    }
}

impl RetryRates {
    /// Take the rates, if there are not too many.
    pub fn from_slice(rates: &[TxPhyRate]) -> (result: Option<Self>)
        ensures
            result is Some == (rates@.len() <= 3),
            result matches Some(result) ==> result@ == rates@,
    {
        let result = match rates.len() {
            0 => RetryRates::Empty,
            1 => RetryRates::One(rates[0]),
            2 => RetryRates::Two(rates[0], rates[1]),
            3 => RetryRates::Three(rates[0], rates[1], rates[2]),
            _ => {
                return None;
            },
        };
        assert(result@ =~= rates@);
        Some(result)
    }

    /// The rate of the retry with the given index, if there is one.
    pub fn get(&self, index: usize) -> (rate: Option<TxPhyRate>)
        ensures
            rate == if index < self@.len() {
                Some(self@[index as int])
            } else {
                None
            },
    {
        match (*self, index) {
            (RetryRates::One(rate), 0) => Some(rate),
            (RetryRates::Two(rate, _), 0) => Some(rate),
            (RetryRates::Two(_, rate), 1) => Some(rate),
            (RetryRates::Three(rate, _, _), 0) => Some(rate),
            (RetryRates::Three(_, rate, _), 1) => Some(rate),
            (RetryRates::Three(_, _, rate), 2) => Some(rate),
            _ => None,
        }
    }
}

/// What the radio does if a transmission fails.
#[derive(Clone, Copy, Debug, PartialEq, Eq, Structural)]
pub enum TxErrorBehaviour {
    /// Drop the frame.
    Drop,
    /// Retry as many times as specified.
    RetryUntil(u8),
    /// Retry with the specified rates.
    MultiRateRetry(RetryRates),
}

/// A bank of receive filters.
#[derive(Clone, Copy, Debug, PartialEq, Eq, Structural)]
pub enum RxFilterBank {
    /// Filters by BSSID.
    Bssid,
    /// Filters by receiver address.
    ReceiverAddress,
}

/// Which frames pass the filters while scanning.
#[derive(Clone, Copy, Debug, PartialEq, Eq, Structural)]
pub enum ScanningMode {
    /// Only frames that match a filter.
    Disabled,
    /// Beacons as well.
    BeaconsOnly,
    /// All management and data frames.
    ManagementAndData,
}

/// A frame received by the radio.
#[derive(Debug)]
pub struct ReceivedFrame {
    /// The MPDU, without FCS.
    pub mpdu: Vec<u8>,
    /// Received signal strength in dBm.
    pub rssi: i8,
    /// When the frame was received, in microseconds.
    pub timestamp: u64,
    /// Which interfaces the frame is addressed to.
    pub interfaces: [bool; 4],
}

/// The receive settings of one interface.
#[derive(Clone, Copy, Debug)]
pub struct RxInterface {
    /// The BSSID that passes the filter.
    pub bssid_filter: Option<[u8; 6]>,
    /// The receiver address that passes the filter.
    pub receiver_address_filter: Option<[u8; 6]>,
    /// Which frames bypass the filters.
    pub scanning_mode: ScanningMode,
}

impl RxInterface {
    /// Start with the filters closed.
    pub fn new() -> (interface: Self)
        ensures
            interface == (RxInterface {
                bssid_filter: None,
                receiver_address_filter: None,
                scanning_mode: ScanningMode::Disabled,
            }),
    {
        Self {
            bssid_filter: None,
            receiver_address_filter: None,
            scanning_mode: ScanningMode::Disabled,
        }
    }

    /// Set a filter.
    pub fn set_filter(&mut self, bank: RxFilterBank, address: [u8; 6])
        ensures
            *final(self) == match bank {
                RxFilterBank::Bssid => RxInterface { bssid_filter: Some(address), ..*old(self) },
                RxFilterBank::ReceiverAddress => RxInterface {
                    receiver_address_filter: Some(address),
                    ..*old(self)
                },
            },
    {
        match bank {
            RxFilterBank::Bssid => {
                self.bssid_filter = Some(address);
            },
            RxFilterBank::ReceiverAddress => {
                self.receiver_address_filter = Some(address);
            },
        }
    }

    /// Clear a filter.
    pub fn clear_filter(&mut self, bank: RxFilterBank)
        ensures
            *final(self) == match bank {
                RxFilterBank::Bssid => RxInterface { bssid_filter: None, ..*old(self) },
                RxFilterBank::ReceiverAddress => RxInterface {
                    receiver_address_filter: None,
                    ..*old(self)
                },
            },
    {
        match bank {
            RxFilterBank::Bssid => {
                self.bssid_filter = None;
            },
            RxFilterBank::ReceiverAddress => {
                self.receiver_address_filter = None;
            },
        }
    }

    /// Set the scanning mode.
    pub fn set_scanning_mode(&mut self, scanning_mode: ScanningMode)
        ensures
            *final(self) == (RxInterface { scanning_mode, ..*old(self) }),
    {
        self.scanning_mode = scanning_mode;
    }
}

} // verus!

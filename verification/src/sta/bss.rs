//! Networks, how they are secured, and credentials for them.
use vstd::prelude::*;

use super::rsn::{CIPHER_CCMP_128, PMK_LENGTH, WPA2_PSK_AKM};
use crate::bytes::write_bytes;
use crate::elements::{
    find_dsss_channel, find_rsn, find_ssid, first_dsss_channel, first_rsn, first_ssid, RsnFields,
};
use crate::mac::MACAddress;
use crate::mgmt::{
    beacon_elements, is_beacon, is_probe_response, parse_beacon, parse_probe_response,
};
use vstd::utf8::decode_utf8;

verus! {

/// Selector of the TKIP cipher suite.
pub const CIPHER_TKIP: u32 = 0x02ac_0f00;
/// Selector of the GCMP cipher suite with 128 bit keys.
pub const CIPHER_GCMP_128: u32 = 0x08ac_0f00;
/// Selector of the GCMP cipher suite with 256 bit keys.
pub const CIPHER_GCMP_256: u32 = 0x09ac_0f00;
/// Selector of the CCMP cipher suite with 256 bit keys.
pub const CIPHER_CCMP_256: u32 = 0x0aac_0f00;
/// Selector of the key management suite of WPA3.
pub const AKM_SAE: u32 = 0x08ac_0f00;
/// Selector of the key management suite of opportunistic wireless encryption.
pub const AKM_OWE: u32 = 0x12ac_0f00;

/// What an RSN element offers.
#[derive(Clone, Copy, Debug, PartialEq, Eq, Structural)]
pub struct RsnReport {
    /// Selector of the group cipher suite.
    pub group_cipher: u32,
    /// Whether CCMP is offered for pairwise traffic.
    pub ccmp_present: bool,
    /// Whether GCMP is offered for pairwise traffic.
    pub gcmp_present: bool,
    /// Whether TKIP is offered for pairwise traffic.
    pub tkip_present: bool,
    /// Whether opportunistic wireless encryption is offered.
    pub owe_present: bool,
    /// Whether authentication of equals is offered.
    pub sae_present: bool,
    /// Whether pre shared keys are offered.
    pub psk_present: bool,
    /// Whether management frame protection is required.
    pub mfp_required: bool,
}

/// Configuration of a WPA2 network.
#[derive(Clone, Copy, Debug, PartialEq, Eq, Structural)]
pub struct Wpa2Config {
    /// Is management frame protection required.
    pub mfp_required: bool,
}

impl Default for Wpa2Config {
    fn default() -> (config: Self)
        ensures
            !config.mfp_required,
    {
        Wpa2Config { mfp_required: false }
    }
}

/// The security configuration of a BSS.
///
/// This is derived from the RSN element or lack thereof, and represents the equivalent security
/// specification.
#[derive(Clone, Copy, Debug, PartialEq, Eq, Structural)]
pub enum SecurityConfig {
    /// Unsecured
    Open,
    /// Wired Equivalent Privacy
    ///
    /// WARNING: Broken beyond repair.
    Wep,
    /// Wi-Fi Protected Access
    ///
    /// WARNING: Broken beyond repair.
    Wpa,
    /// Wi-Fi Protected Access 2 Transition Mode
    ///
    /// WARNING: In terms of group addressed traffic, this is just as broken as WPA.
    Wpa2TransitionMode,
    /// Wi-Fi Protected Access 2
    ///
    /// This has neither forward nor backward secrecy: whoever knows the passphrase can passively
    /// decrypt all traffic of which they saw the handshake.
    Wpa2(Wpa2Config),
    /// Wi-Fi Protected Access 3 Transition Mode
    ///
    /// WPA2 and WPA3 capable devices can connect, with the drawbacks of WPA2.
    Wpa3TransitionMode,
    /// Wi-Fi Protected Access 3
    Wpa3,
    /// Opportunistic Wireless Encryption Transition Mode
    ///
    /// Group addressed frames are still vulnerable.
    OweTransitionMode,
    /// Opportunistic Wireless Encryption
    ///
    /// Traffic is encrypted, but nobody is authenticated.
    Owe,
    /// No equivalent was found, or the configuration is invalid.
    Invalid,
}

/// How RSN capabilities configure management frame protection: disabled, capable, required or
/// invalid, from zero on.
pub open spec fn mfp_config(capabilities: u16) -> int {
    capabilities as int / 64 % 4
}

/// What an RSN element offers; nothing if fields are missing or invalid.
pub open spec fn rsn_report(rsn: RsnFields) -> Option<RsnReport> {
    match (rsn.group_data_cipher_suite, rsn.pairwise_cipher_suite_list, rsn.akm_list) {
        (Some(group_cipher), Some(ciphers), Some(akms)) if !(
        rsn.rsn_capabilities matches Some(capabilities) && mfp_config(capabilities) == 3) => Some(
            RsnReport {
                group_cipher,
                ccmp_present: ciphers@.contains(CIPHER_CCMP_128) || ciphers@.contains(
                    CIPHER_CCMP_256,
                ),
                gcmp_present: ciphers@.contains(CIPHER_GCMP_128) || ciphers@.contains(
                    CIPHER_GCMP_256,
                ),
                tkip_present: ciphers@.contains(CIPHER_TKIP),
                owe_present: akms@.contains(AKM_OWE),
                sae_present: akms@.contains(AKM_SAE),
                psk_present: akms@.contains(WPA2_PSK_AKM),
                mfp_required: rsn.rsn_capabilities matches Some(capabilities) && mfp_config(
                    capabilities,
                ) == 2,
            },
        ),
        _ => None,
    }
}

/// The security configuration that an RSN element, or the lack of one, stands for.
pub open spec fn security_config_of(rsn: Option<RsnFields>) -> SecurityConfig {
    match rsn {
        None => SecurityConfig::Open,
        Some(rsn) => match rsn_report(rsn) {
            None => SecurityConfig::Invalid,
            Some(report) => {
                if report.group_cipher == CIPHER_CCMP_128 && report.ccmp_present {
                    if report.owe_present {
                        SecurityConfig::Owe
                    } else if report.psk_present && report.sae_present {
                        SecurityConfig::Wpa3TransitionMode
                    } else if report.psk_present {
                        SecurityConfig::Wpa2(Wpa2Config { mfp_required: report.mfp_required })
                    } else if report.sae_present {
                        SecurityConfig::Wpa3
                    } else {
                        SecurityConfig::Invalid
                    }
                } else if report.group_cipher == CIPHER_TKIP && report.tkip_present {
                    if report.ccmp_present {
                        SecurityConfig::Wpa2TransitionMode
                    } else {
                        SecurityConfig::Wpa
                    }
                } else {
                    SecurityConfig::Invalid
                }
            },
        },
    }
}

/// Check whether a list of selectors contains one.
fn contains_selector(list: &Vec<u32>, selector: u32) -> (found: bool)
    ensures
        found == list@.contains(selector),
{
    let mut i: usize = 0;
    while i < list.len()
        invariant
            i <= list@.len(),
            forall|j: int| 0 <= j < i ==> list@[j] != selector,
        decreases list@.len() - i,
    {
        if list[i] == selector {
            assert(list@[i as int] == selector);
            return true;
        }
        i = i + 1;
    }
    false
}

impl SecurityConfig {
    /// Find out what an RSN element offers.
    pub fn generate_rsn_report(rsn: &RsnFields) -> (report: Option<RsnReport>)
        ensures
            report == rsn_report(*rsn),
    {
        let group_cipher: u32 = match rsn.group_data_cipher_suite {
            Some(group_cipher) => group_cipher,
            None => {
                return None;
            },
        };
        let mut mfp_required = false;
        if let Some(capabilities) = rsn.rsn_capabilities {
            let mfp_config: u16 = capabilities / 64 % 4;
            if mfp_config == 3 {
                return None;
            }
            mfp_required = mfp_config == 2;
        }
        match (&rsn.pairwise_cipher_suite_list, &rsn.akm_list) {
            (Some(ciphers), Some(akms)) => Some(
                RsnReport {
                    group_cipher,
                    ccmp_present: contains_selector(ciphers, CIPHER_CCMP_128) || contains_selector(
                        ciphers,
                        CIPHER_CCMP_256,
                    ),
                    gcmp_present: contains_selector(ciphers, CIPHER_GCMP_128) || contains_selector(
                        ciphers,
                        CIPHER_GCMP_256,
                    ),
                    tkip_present: contains_selector(ciphers, CIPHER_TKIP),
                    owe_present: contains_selector(akms, AKM_OWE),
                    sae_present: contains_selector(akms, AKM_SAE),
                    psk_present: contains_selector(akms, WPA2_PSK_AKM),
                    mfp_required,
                },
            ),
            _ => None,
        }
    }

    /// Find the security configuration that an RSN element, or the lack of one, stands for.
    pub fn from_rsn(rsn: &Option<RsnFields>) -> (config: Self)
        ensures
            config == security_config_of(*rsn),
    {
        let rsn = match rsn {
            Some(rsn) => rsn,
            None => {
                return SecurityConfig::Open;
            },
        };
        let report = match Self::generate_rsn_report(rsn) {
            Some(report) => report,
            None => {
                return SecurityConfig::Invalid;
            },
        };
        let is_group_cipher_ccmp = report.group_cipher == CIPHER_CCMP_128;
        let is_group_cipher_tkip = report.group_cipher == CIPHER_TKIP;
        if is_group_cipher_ccmp && report.ccmp_present {
            if report.owe_present {
                SecurityConfig::Owe
            } else {
                match (report.psk_present, report.sae_present) {
                    (true, true) => SecurityConfig::Wpa3TransitionMode,
                    (true, false) => SecurityConfig::Wpa2(
                        Wpa2Config { mfp_required: report.mfp_required },
                    ),
                    (false, true) => SecurityConfig::Wpa3,
                    _ => SecurityConfig::Invalid,
                }
            }
        } else if is_group_cipher_tkip && report.tkip_present {
            if report.ccmp_present {
                SecurityConfig::Wpa2TransitionMode
            } else {
                SecurityConfig::Wpa
            }
        } else {
            SecurityConfig::Invalid
        }
    }

    /// Find the security configuration that the elements of a beacon stand for.
    pub fn from_beacon_like(elements: &[u8]) -> (config: Self)
        ensures
            secures(config, elements@),
    {
        let rsn = find_rsn(elements);
        Self::from_rsn(&rsn)
    }
}

/// Whether `config` is the security configuration that the elements of a beacon stand for.
pub open spec fn secures(config: SecurityConfig, elements: Seq<u8>) -> bool {
    match first_rsn(elements) {
        None => config == SecurityConfig::Open,
        Some(contents) => exists|rsn: RsnFields|
            rsn.of(contents) && config == #[trigger] security_config_of(Some(rsn)),
    }
}

/// Information about a BSS.
#[derive(Debug)]
pub struct BSS {
    /// The SSID of the BSS.
    pub ssid: String,
    /// The channel on which the BSS operates.
    ///
    /// This is taken from the DSSS parameter set element and is not just the channel on which the
    /// beacon was received.
    pub channel: u8,
    /// The BSSID of the BSS.
    pub bssid: MACAddress,
    /// The RSSI in dBm of the last frame received from this BSS.
    pub last_rssi: i8,
    /// The security configuration of the network.
    pub security_config: SecurityConfig,
}

/// Whether a frame is a beacon or probe response that tells SSID and channel of its network.
pub open spec fn describes_bss(frame: Seq<u8>) -> bool {
    &&& is_beacon(frame) || is_probe_response(frame)
    &&& first_ssid(beacon_elements(frame)) is Some
    &&& first_dsss_channel(beacon_elements(frame)) is Some
}

impl BSS {
    /// Whether this is the network that the beacon or probe response `frame` describes.
    pub open spec fn described_by(&self, frame: Seq<u8>, rssi: i8) -> bool {
        &&& self.ssid@ == decode_utf8(first_ssid(beacon_elements(frame))->Some_0)
        &&& Some(self.channel) == first_dsss_channel(beacon_elements(frame))
        &&& self.bssid@ == frame.subrange(16, 22)
        &&& self.last_rssi == rssi
        &&& secures(self.security_config, beacon_elements(frame))
    }

    /// Create a [BSS] from the information in a beacon or probe response frame.
    pub fn from_beacon_like(frame: &[u8], rssi: i8) -> (bss: Option<Self>)
        ensures
            bss is Some == describes_bss(frame@),
            bss matches Some(bss) ==> bss.described_by(frame@, rssi),
    {
        let beacon = match parse_beacon(frame) {
            Some(beacon) => beacon,
            None => match parse_probe_response(frame) {
                Some(response) => response,
                None => {
                    return None;
                },
            },
        };
        let ssid = match find_ssid(&beacon.elements) {
            Some(ssid) => ssid,
            None => {
                return None;
            },
        };
        let channel: u8 = match find_dsss_channel(&beacon.elements) {
            Some(channel) => channel,
            None => {
                return None;
            },
        };
        let security_config = SecurityConfig::from_beacon_like(&beacon.elements);
        Some(BSS { ssid, channel, bssid: beacon.bssid, last_rssi: rssi, security_config })
    }
}

/// The length of a pre shared key does not match.
#[derive(Clone, Copy, Debug, PartialEq, Eq, Structural)]
pub struct PskLengthMismatchError;

/// Network credentials.
#[derive(Clone, Copy, Debug)]
pub enum Credentials<'a> {
    /// A pre shared key (PSK).
    PreSharedKey(&'a [u8]),
    /// A passphrase.
    ///
    /// We internally convert this to a PSK for further processing.
    Passphrase(&'a str),
}

/// The first `length` bytes of the key that a passphrase and an SSID give: PBKDF2 with HMAC-SHA1
/// and 4096 iterations.
pub uninterp spec fn passphrase_psk(passphrase: Seq<char>, ssid: Seq<char>, length: nat) -> Seq<u8>;

/// Map a passphrase to a pre shared key.
///
/// Calls `ieee80211::crypto::map_passphrase_to_psk`, which fills the output with as much of the
/// derived key as fits. The key is named by [passphrase_psk].
#[verifier::external_body]
fn map_passphrase_to_psk(passphrase: &str, ssid: &str, output: &mut [u8])
    ensures
        final(output)@ == passphrase_psk(passphrase@, ssid@, old(output)@.len()),
        final(output)@.len() == old(output)@.len(),
{
    ieee80211::crypto::map_passphrase_to_psk(passphrase, ssid, output)
}

/// The key of `length` bytes that credentials give for a network; nothing if a pre shared key has
/// another length.
pub open spec fn pmk_of(credentials: Credentials<'_>, ssid: Seq<char>, length: nat) -> Option<
    Seq<u8>,
> {
    match credentials {
        Credentials::PreSharedKey(psk) => {
            if psk@.len() == length {
                Some(psk@)
            } else {
                None
            }
        },
        Credentials::Passphrase(passphrase) => Some(passphrase_psk(passphrase@, ssid, length)),
    }
}

impl<'a> Credentials<'a> {
    /// Get the pairwise master key for the provided credentials.
    ///
    /// If this is a PSK and the length doesn't match the provided output slice,
    /// [PskLengthMismatchError] is returned.
    pub fn pmk(&self, output: &mut [u8], ssid: &str) -> (result: Result<(), PskLengthMismatchError>)
        ensures
            result is Ok == pmk_of(*self, ssid@, old(output)@.len()) is Some,
            result is Ok ==> Some(final(output)@) == pmk_of(*self, ssid@, old(output)@.len()),
            result is Err ==> final(output)@ == old(output)@,
            final(output)@.len() == old(output)@.len(),
    {
        match self {
            Credentials::PreSharedKey(psk) => {
                if output.len() == psk.len() {
                    write_bytes(output, 0, psk);
                    assert(output@ =~= psk@);
                } else {
                    return Err(PskLengthMismatchError);
                }
            },
            Credentials::Passphrase(passphrase) => {
                map_passphrase_to_psk(passphrase, ssid, output);
            },
        }
        Ok(())
    }

    /// Derive the key once, so that connections can reuse it as a pre shared key.
    pub fn derive_psk(&self, ssid: &str) -> (psk: Result<[u8; 32], PskLengthMismatchError>)
        ensures
            psk is Ok == pmk_of(*self, ssid@, 32) is Some,
            psk matches Ok(psk) ==> Some(psk@) == pmk_of(*self, ssid@, 32),
    {
        let mut psk: [u8; 32] = [0; 32];
        match self.pmk(&mut psk, ssid) {
            Ok(()) => Ok(psk),
            Err(error) => Err(error),
        }
    }
}

/// A key that was derived once gives the same pairwise master key as the credentials it was derived
/// from.
pub proof fn derived_psk_is_reusable(credentials: Credentials<'_>, psk: &[u8], ssid: Seq<char>)
    requires
        psk@.len() == PMK_LENGTH,
        pmk_of(credentials, ssid, PMK_LENGTH as nat) == Some(psk@),
    ensures
        pmk_of(Credentials::PreSharedKey(psk), ssid, PMK_LENGTH as nat) == pmk_of(
            credentials,
            ssid,
            PMK_LENGTH as nat,
        ),
{
}

/// A network without RSN element counts as open, and one with an element that says nothing of its
/// ciphers never does.
pub proof fn only_networks_without_rsn_are_open(config: SecurityConfig, elements: Seq<u8>)
    requires
        secures(config, elements),
    ensures
        config == SecurityConfig::Open <==> first_rsn(elements) is None,
{
}

} // verus!

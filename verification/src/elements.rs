//! Elements in the bodies of management frames and in key data.
//!
//! Elements stand one after the other: an identifier, a length and that many bytes.
use vstd::prelude::*;

use crate::bytes::le_value;
use ieee80211::elements::kde::GtkKde;
use ieee80211::elements::rsn::RsnElement;
use ieee80211::elements::{DSSSParameterSetElement, ReadElements, SSIDElement};
use vstd::utf8::{decode_utf8, valid_utf8};

verus! {

/// Identifier of the SSID element.
pub const ELEMENT_SSID: u8 = 0;
/// Identifier of the DSSS parameter set element.
pub const ELEMENT_DSSS: u8 = 3;
/// Identifier of the RSN element.
pub const ELEMENT_RSN: u8 = 0x30;
/// Identifier of vendor specific elements.
pub const ELEMENT_VENDOR: u8 = 0xdd;

/// The contents of the first element in `elements` with the given identifier and contents that are
/// acceptable. The list ends where an element is cut short.
pub open spec fn first_element(
    elements: Seq<u8>,
    id: u8,
    acceptable: spec_fn(Seq<u8>) -> bool,
) -> Option<Seq<u8>>
    decreases elements.len(),
{
    if elements.len() < 2 || 2 + elements[1] > elements.len() {
        None
    } else {
        let contents = elements.subrange(2, 2 + elements[1]);
        if elements[0] == id && acceptable(contents) {
            Some(contents)
        } else {
            first_element(
                elements.subrange(2 + elements[1], elements.len() as int),
                id,
                acceptable,
            )
        }
    }
}

/// A group key as found in key data.
pub struct GtkElement {
    /// Identifier of the key.
    pub key_id: u8,
    /// The key.
    pub gtk: Vec<u8>,
}

/// Whether the contents of a vendor specific element are those of a group key: a prefix of four
/// bytes, two bytes of key information and the key.
pub open spec fn is_gtk(contents: Seq<u8>) -> bool {
    contents.len() >= 6 && contents.subrange(0, 4) == seq![0x00u8, 0x0f, 0xac, 0x01]
}

/// The first group key in `data`: its identifier, in the lowest two bits of the key information,
/// and the key.
pub open spec fn first_gtk(data: Seq<u8>) -> Option<(u8, Seq<u8>)> {
    match first_element(data, ELEMENT_VENDOR, |contents: Seq<u8>| is_gtk(contents)) {
        Some(contents) => Some((contents[4] & 3, contents.subrange(6, contents.len() as int))),
        None => None,
    }
}

/// Find the first group key in key data.
///
/// Calls `ieee80211::elements::ReadElements::get_first_element::<GtkKde>`, which walks the
/// elements as [first_gtk] states.
#[verifier::external_body]
pub(crate) fn find_gtk(data: &[u8]) -> (gtk: Option<GtkElement>)
    ensures
        gtk is Some == first_gtk(data@) is Some,
        gtk matches Some(gtk) ==> (gtk.key_id, gtk.gtk@) == first_gtk(data@)->Some_0,
{
    let gtk = ReadElements { bytes: data }.get_first_element::<GtkKde>()?;
    Some(GtkElement { key_id: gtk.gtk_info.key_id(), gtk: gtk.gtk.to_vec() })
}

/// The first SSID in `elements`: at most 32 bytes of UTF-8.
pub open spec fn first_ssid(elements: Seq<u8>) -> Option<Seq<u8>> {
    first_element(
        elements,
        ELEMENT_SSID,
        |contents: Seq<u8>| contents.len() <= 32 && valid_utf8(contents),
    )
}

/// Find the first SSID among elements.
///
/// Calls `ieee80211::elements::ReadElements::get_first_element::<SSIDElement>`, which passes over
/// SSIDs that are too long or no UTF-8.
#[verifier::external_body]
pub(crate) fn find_ssid(elements: &[u8]) -> (ssid: Option<String>)
    ensures
        ssid is Some == first_ssid(elements@) is Some,
        ssid matches Some(ssid) ==> ssid@ == decode_utf8(first_ssid(elements@)->Some_0),
{
    let ssid = ReadElements { bytes: elements }.get_first_element::<SSIDElement>()?;
    Some(ssid.ssid().to_owned())
}

/// The channel in the first DSSS parameter set in `elements`.
pub open spec fn first_dsss_channel(elements: Seq<u8>) -> Option<u8> {
    match first_element(elements, ELEMENT_DSSS, |contents: Seq<u8>| contents.len() >= 1) {
        Some(contents) => Some(contents[0]),
        None => None,
    }
}

/// Find the channel among elements.
///
/// Calls `ieee80211::elements::ReadElements::get_first_element::<DSSSParameterSetElement>`; the
/// channel is the first byte of the element.
#[verifier::external_body]
pub(crate) fn find_dsss_channel(elements: &[u8]) -> (channel: Option<u8>)
    ensures
        channel == first_dsss_channel(elements@),
{
    let dsss = ReadElements { bytes: elements }.get_first_element::<DSSSParameterSetElement>()?;
    Some(dsss.current_channel)
}

/// The fields of an RSN element that tell how a network is secured.
pub struct RsnFields {
    /// Selector of the group cipher suite.
    pub group_data_cipher_suite: Option<u32>,
    /// Selectors of the pairwise cipher suites.
    pub pairwise_cipher_suite_list: Option<Vec<u32>>,
    /// Selectors of the key management suites.
    pub akm_list: Option<Vec<u32>>,
    /// Capabilities.
    pub rsn_capabilities: Option<u16>,
}

/// The selector that starts at `at`.
pub open spec fn selector_at(contents: Seq<u8>, at: int) -> u32 {
    le_value(contents.subrange(at, at + 4)) as u32
}

/// The list of selectors that starts at `at`, with its count in front; nothing if it is cut short.
pub open spec fn selector_list(contents: Seq<u8>, at: int) -> Option<Seq<u32>> {
    if at + 2 > contents.len() {
        None
    } else {
        let count = le_value(contents.subrange(at, at + 2));
        if at + 2 + 4 * count > contents.len() {
            None
        } else {
            Some(Seq::new(count, |i: int| selector_at(contents, at + 2 + 4 * i)))
        }
    }
}

/// Where the list of key management suites starts.
pub open spec fn akm_list_offset(contents: Seq<u8>) -> int {
    8 + 4 * selector_list(contents, 6)->Some_0.len() as int
}

/// Where the capabilities start.
pub open spec fn capabilities_offset(contents: Seq<u8>) -> int {
    akm_list_offset(contents) + 2 + 4 * selector_list(
        contents,
        akm_list_offset(contents),
    )->Some_0.len() as int
}

impl RsnFields {
    /// Whether these are the fields in the contents of an RSN element. From the first field that is
    /// cut short on, all are absent.
    pub open spec fn of(&self, contents: Seq<u8>) -> bool {
        let has_group = contents.len() >= 6;
        let has_pairwise = has_group && selector_list(contents, 6) is Some;
        let has_akm = has_pairwise && selector_list(contents, akm_list_offset(contents)) is Some;
        let has_capabilities = has_akm && capabilities_offset(contents) + 2 <= contents.len();
        &&& self.group_data_cipher_suite == if has_group {
            Some(selector_at(contents, 2))
        } else {
            None
        }
        &&& self.pairwise_cipher_suite_list is Some == has_pairwise
        &&& self.pairwise_cipher_suite_list matches Some(list) ==> list@ == selector_list(
            contents,
            6,
        )->Some_0
        &&& self.akm_list is Some == has_akm
        &&& self.akm_list matches Some(list) ==> list@ == selector_list(
            contents,
            akm_list_offset(contents),
        )->Some_0
        &&& self.rsn_capabilities == if has_capabilities {
            Some(
                le_value(
                    contents.subrange(
                        capabilities_offset(contents),
                        capabilities_offset(contents) + 2,
                    ),
                ) as u16,
            )
        } else {
            None
        }
    }
}

/// The contents of the first RSN element of version 1 in `elements`.
pub open spec fn first_rsn(elements: Seq<u8>) -> Option<Seq<u8>> {
    first_element(
        elements,
        ELEMENT_RSN,
        |contents: Seq<u8>| contents.len() >= 2 && contents[0] == 1 && contents[1] == 0,
    )
}

/// Find the first RSN element among elements.
///
/// Calls `ieee80211::elements::ReadElements::get_first_element::<RsnElement>`. Elements of another
/// version are passed over, and an element may end after any field. The outside function reads the
/// capabilities in the byte order of the machine; here they are claimed to be little endian, as on
/// the chips this is for.
#[verifier::external_body]
pub(crate) fn find_rsn(elements: &[u8]) -> (rsn: Option<RsnFields>)
    ensures
        rsn is Some == first_rsn(elements@) is Some,
        rsn matches Some(rsn) ==> rsn.of(first_rsn(elements@)->Some_0),
{
    let rsn = ReadElements { bytes: elements }.get_first_element::<RsnElement>()?;
    Some(RsnFields {
        group_data_cipher_suite: rsn.group_data_cipher_suite.map(|suite| suite.cipher_suite_selector()),
        pairwise_cipher_suite_list: rsn.pairwise_cipher_suite_list.map(
            |list| list.map(|suite| suite.cipher_suite_selector()).collect(),
        ),
        akm_list: rsn.akm_list.map(
            |list| list.map(|suite| suite.cipher_suite_selector()).collect(),
        ),
        rsn_capabilities: rsn.rsn_capbilities.map(|capabilities| capabilities.into_bits()),
    })
}

} // verus!

//! What is promised of networks that are found, over the bytes of their beacons.
use vstd::prelude::*;
use vstd::utf8::{decode_utf8, valid_utf8};

use crate::bytes::{le_bytes, le_value, pow256};
use crate::elements::{
    first_dsss_channel, first_element, first_rsn, first_ssid, RsnFields, ELEMENT_DSSS, ELEMENT_RSN,
    ELEMENT_SSID,
};
use crate::mgmt::beacon_elements;
use crate::sta::bss::{
    describes_bss, rsn_report, secures, security_config_of, SecurityConfig, Wpa2Config, BSS,
};
use crate::sta::connection_laws::{body_start, management_bytes};
use crate::sta::operations::scan::{
    address_number, beacon_of, network_listed, search_continued, BssList,
};
use crate::util::operations::scan::PostChannelScanAction;

verus! {

/// Whether an RSN element names a group cipher, pairwise ciphers and key management suites, and does
/// not claim that management frame protection is required but not supported.
pub open spec fn is_complete(rsn: RsnFields) -> bool {
    &&& rsn.group_data_cipher_suite is Some
    &&& rsn.pairwise_cipher_suite_list is Some
    &&& rsn.akm_list is Some
    &&& rsn.rsn_capabilities matches Some(capabilities) ==> capabilities as int / 64 % 4 != 3
}

/// Whether a network uses CCMP: for group traffic, and as one of the ciphers for pairwise traffic.
pub open spec fn offers_aes(rsn: RsnFields) -> bool {
    &&& is_complete(rsn)
    &&& rsn.group_data_cipher_suite == Some(0x04ac_0f00u32)
    &&& rsn.pairwise_cipher_suite_list->Some_0@.contains(0x04ac_0f00)
        || rsn.pairwise_cipher_suite_list->Some_0@.contains(0x0aac_0f00)
}

/// Whether a network uses TKIP for group traffic, and offers it for pairwise traffic.
pub open spec fn offers_tkip(rsn: RsnFields) -> bool {
    &&& is_complete(rsn)
    &&& rsn.group_data_cipher_suite == Some(0x02ac_0f00u32)
    &&& rsn.pairwise_cipher_suite_list->Some_0@.contains(0x02ac_0f00)
}

/// Whether a network manages keys by pre shared keys.
pub open spec fn offers_psk(rsn: RsnFields) -> bool {
    rsn.akm_list->Some_0@.contains(0x02ac_0f00)
}

/// Whether a network authenticates equals.
pub open spec fn offers_sae(rsn: RsnFields) -> bool {
    rsn.akm_list->Some_0@.contains(0x08ac_0f00)
}

/// Whether a network offers opportunistic encryption.
pub open spec fn offers_owe(rsn: RsnFields) -> bool {
    rsn.akm_list->Some_0@.contains(0x12ac_0f00)
}

/// A network that uses CCMP is WPA3 in transition mode exactly if it offers both pre shared keys and
/// authentication of equals, WPA3 exactly if it offers only the latter, and WPA2 exactly if it offers
/// only the former, as long as it does not offer opportunistic encryption. That comes before all.
pub proof fn aes_networks_are_told_apart_by_key_management(rsn: RsnFields)
    requires
        offers_aes(rsn),
    ensures
        security_config_of(Some(rsn)) == SecurityConfig::Owe <==> offers_owe(rsn),
        !offers_owe(rsn) ==> {
            let config = security_config_of(Some(rsn));
            &&& config == SecurityConfig::Wpa3TransitionMode <==> offers_psk(rsn) && offers_sae(rsn)
            &&& config == SecurityConfig::Wpa3 <==> offers_sae(rsn) && !offers_psk(rsn)
            &&& config is Wpa2 <==> offers_psk(rsn) && !offers_sae(rsn)
            &&& config == SecurityConfig::Invalid <==> !offers_psk(rsn) && !offers_sae(rsn)
        },
{
}

/// A WPA2 network requires management frame protection exactly if bits 6 and 7 of its capabilities,
/// taken as a number, are two.
pub proof fn wpa2_networks_tell_whether_frames_are_protected(rsn: RsnFields)
    requires
        security_config_of(Some(rsn)) is Wpa2,
    ensures
        security_config_of(Some(rsn)) == SecurityConfig::Wpa2(Wpa2Config { mfp_required: true })
            <==> (rsn.rsn_capabilities matches Some(capabilities) && capabilities as int / 64 % 4
            == 2),
        offers_aes(rsn),
        offers_psk(rsn),
        !offers_sae(rsn),
        !offers_owe(rsn),
{
}

/// A network that uses TKIP is WPA2 in transition mode if it offers CCMP too, and else WPA. No other
/// network is either.
pub proof fn tkip_networks_are_told_apart_by_ciphers(rsn: RsnFields)
    ensures
        offers_tkip(rsn) ==> {
            let ciphers = rsn.pairwise_cipher_suite_list->Some_0@;
            let aes = ciphers.contains(0x04ac_0f00) || ciphers.contains(0x0aac_0f00);
            security_config_of(Some(rsn)) == if aes {
                SecurityConfig::Wpa2TransitionMode
            } else {
                SecurityConfig::Wpa
            }
        },
        !offers_tkip(rsn) ==> security_config_of(Some(rsn)) != SecurityConfig::Wpa
            && security_config_of(Some(rsn)) != SecurityConfig::Wpa2TransitionMode,
        !offers_tkip(rsn) && !offers_aes(rsn) ==> security_config_of(Some(rsn))
            == SecurityConfig::Invalid,
        security_config_of(None) == SecurityConfig::Open,
        security_config_of(Some(rsn)) != SecurityConfig::Open,
{
}

/// The security of a network is what its first RSN element says, and it is open without one.
pub proof fn security_is_that_of_the_element(config: SecurityConfig, elements: Seq<u8>, rsn: RsnFields)
    requires
        secures(config, elements),
    ensures
        first_rsn(elements) is None ==> config == SecurityConfig::Open,
        first_rsn(elements) matches Some(contents) && rsn.of(contents) ==> config
            == security_config_of(Some(rsn)),
{
    if let Some(contents) = first_rsn(elements) {
        if rsn.of(contents) {
            let other = choose|other: RsnFields|
                other.of(contents) && config == #[trigger] security_config_of(Some(other));
            assert(rsn_report(other) == rsn_report(rsn));
        }
    }
}

/// Elements in front of those that are looked for are passed over.
proof fn lemma_passed_over(
    element: Seq<u8>,
    rest: Seq<u8>,
    id: u8,
    acceptable: spec_fn(Seq<u8>) -> bool,
)
    requires
        element.len() >= 2,
        element.len() == 2 + element[1],
    ensures
        element[0] == id && acceptable(element.subrange(2, element.len() as int)) ==> first_element(
            element + rest,
            id,
            acceptable,
        ) == Some(element.subrange(2, element.len() as int)),
        element[0] != id ==> first_element(element + rest, id, acceptable) == first_element(
            rest,
            id,
            acceptable,
        ),
{
    let all = element + rest;
    assert(all.subrange(2, 2 + all[1]) =~= element.subrange(2, element.len() as int));
    assert(all.subrange(2 + all[1], all.len() as int) =~= rest);
}

/// A beacon or probe response that tells an SSID and then a channel describes a network with that SSID
/// and channel, the third address as BSSID and the signal strength that the frame was received with,
/// whatever other elements follow.
pub proof fn beacons_describe_their_network(
    frame: Seq<u8>,
    ssid: Seq<u8>,
    channel: u8,
    rest: Seq<u8>,
    rssi: i8,
    bss: BSS,
)
    requires
        management_bytes(frame, 12),
        frame[0] & 0xf0 == 0x80 || frame[0] & 0xf0 == 0x50,
        ssid.len() <= 32,
        valid_utf8(ssid),
        frame.subrange(body_start(frame) + 12, frame.len() as int) == seq![0u8, ssid.len() as u8]
            + ssid + seq![3u8, 1, channel] + rest,
    ensures
        describes_bss(frame),
        bss.described_by(frame, rssi) ==> {
            &&& bss.ssid@ == decode_utf8(ssid)
            &&& bss.channel == channel
            &&& bss.bssid@ == frame.subrange(16, 22)
            &&& bss.last_rssi == rssi
            &&& first_rsn(rest) is None ==> bss.security_config == SecurityConfig::Open
            &&& forall|rsn: RsnFields|
                first_rsn(rest) is Some && #[trigger] rsn.of(first_rsn(rest)->Some_0)
                    ==> bss.security_config == security_config_of(Some(rsn))
        },
{
    lemma_beacon_bits(frame[0]);
    let elements = beacon_elements(frame);
    let first = seq![0u8, ssid.len() as u8] + ssid;
    let second = seq![3u8, 1, channel];
    let behind = second + rest;
    assert(elements =~= first + behind);
    assert(first.subrange(2, first.len() as int) =~= ssid);
    assert(second.subrange(2, 3) =~= seq![channel]);
    let ssids = |contents: Seq<u8>| contents.len() <= 32 && valid_utf8(contents);
    let channels = |contents: Seq<u8>| contents.len() >= 1;
    let rsns = |contents: Seq<u8>| contents.len() >= 2 && contents[0] == 1 && contents[1] == 0;
    lemma_passed_over(first, behind, ELEMENT_SSID, ssids);
    lemma_passed_over(first, behind, ELEMENT_DSSS, channels);
    lemma_passed_over(second, rest, ELEMENT_DSSS, channels);
    lemma_passed_over(first, behind, ELEMENT_RSN, rsns);
    lemma_passed_over(second, rest, ELEMENT_RSN, rsns);
    assert(first_ssid(elements) == Some(ssid));
    assert(first_dsss_channel(elements) == Some(channel));
    assert(first_rsn(elements) == first_rsn(rest));
    if bss.described_by(frame, rssi) {
        assert forall|rsn: RsnFields|
            first_rsn(rest) is Some && #[trigger] rsn.of(
                first_rsn(rest)->Some_0,
            ) implies bss.security_config == security_config_of(Some(rsn)) by {
            security_is_that_of_the_element(bss.security_config, elements, rsn);
        }
    }
}

/// The bits of the frame control field say the same as the fields made of them.
proof fn lemma_beacon_bits(control: u8)
    ensures
        ((control >> 2) & 3 == 0) == (control & 0x0c == 0),
        (control >> 4 == 8) == (control & 0xf0 == 0x80),
        (control >> 4 == 5) == (control & 0xf0 == 0x50),
{
    assert(((control >> 2) & 3 == 0) == (control & 0x0c == 0) && (control >> 4 == 8) == (control
        & 0xf0 == 0x80) && (control >> 4 == 5) == (control & 0xf0 == 0x50)) by (bit_vector);
}

/// A search finds exactly the beacons that tell the SSID, whatever elements follow.
pub proof fn searches_go_by_the_ssid(frame: Seq<u8>, ssid: Seq<u8>, rest: Seq<u8>, wanted: Seq<char>)
    requires
        management_bytes(frame, 12),
        frame[0] & 0xf0 == 0x80,
        ssid.len() <= 32,
        valid_utf8(ssid),
        frame.subrange(body_start(frame) + 12, frame.len() as int) == seq![0u8, ssid.len() as u8]
            + ssid + rest,
    ensures
        beacon_of(frame, wanted) == (decode_utf8(ssid) == wanted),
{
    lemma_beacon_bits(frame[0]);
    let elements = beacon_elements(frame);
    let first = seq![0u8, ssid.len() as u8] + ssid;
    assert(elements =~= first + rest);
    assert(first.subrange(2, first.len() as int) =~= ssid);
    lemma_passed_over(
        first,
        rest,
        ELEMENT_SSID,
        |contents: Seq<u8>| contents.len() <= 32 && valid_utf8(contents),
    );
}

/// Networks with different addresses are different networks: no address stands for another one.
pub proof fn addresses_tell_networks_apart(one: Seq<u8>, other: Seq<u8>)
    requires
        one.len() == 6,
        other.len() == 6,
    ensures
        address_number(one) == address_number(other) <==> one == other,
{
    reveal_with_fuel(pow256, 7);
    lemma_le_bytes_of_value(one);
    lemma_le_bytes_of_value(other);
}

/// Bytes are made again from the number that they spell.
proof fn lemma_le_bytes_of_value(bytes: Seq<u8>)
    ensures
        le_bytes(le_value(bytes), bytes.len()) == bytes,
        le_value(bytes) < pow256(bytes.len()),
    decreases bytes.len(),
{
    if bytes.len() > 0 {
        let rest = bytes.drop_first();
        lemma_le_bytes_of_value(rest);
        assert(le_value(bytes) / 256 == le_value(rest));
        assert(le_value(bytes) % 256 == bytes.first());
        assert(le_bytes(le_value(bytes), bytes.len()) =~= bytes);
    } else {
        assert(le_bytes(0, 0) =~= bytes);
    }
}

/// A network is known exactly if one with its address is in the list.
pub proof fn known_networks_are_listed(list: BssList, bssid: Seq<u8>)
    requires
        bssid.len() == 6,
    ensures
        list.knows(address_number(bssid)) <==> exists|i: int|
            0 <= i < list@.len() && (#[trigger] list@[i]).bssid@ == bssid,
{
    if list.knows(address_number(bssid)) {
        let i = choose|i: int|
            0 <= i < list@.len() && address_number((#[trigger] list@[i]).bssid@) == address_number(
                bssid,
            );
        addresses_tell_networks_apart(list@[i].bssid@, bssid);
    }
}

/// A network is described by every beacon and probe response that tells an SSID and a channel, wherever
/// among its elements, and by no other frame. What is known of it then is the first of each.
pub proof fn networks_are_described_by_their_elements(frame: Seq<u8>, rssi: i8, bss: BSS)
    requires
        frame.len() >= 36,
    ensures
        ({
            let elements = frame.subrange(body_start(frame) + 12, frame.len() as int);
            let beacon = management_bytes(frame, 12) && (frame[0] & 0xf0 == 0x80 || frame[0] & 0xf0
                == 0x50);
            &&& describes_bss(frame) <==> beacon && first_ssid(elements) is Some
                && first_dsss_channel(elements) is Some
            &&& describes_bss(frame) && bss.described_by(frame, rssi) ==> {
                &&& Some(bss.channel) == first_dsss_channel(elements)
                &&& bss.ssid@ == decode_utf8(first_ssid(elements)->Some_0)
                &&& bss.bssid@ == frame.subrange(16, 22)
                &&& bss.last_rssi == rssi
                &&& first_rsn(elements) is None ==> bss.security_config == SecurityConfig::Open
            }
        }),
{
    lemma_beacon_bits(frame[0]);
}

/// A search stops at the first beacon that tells the SSID and then a channel, with that network, and at
/// no beacon that tells another SSID.
pub proof fn searches_stop_at_the_network(
    frame: Seq<u8>,
    ssid: Seq<u8>,
    channel: u8,
    rest: Seq<u8>,
    rssi: i8,
    wanted: Seq<char>,
    action: PostChannelScanAction<BSS>,
)
    requires
        management_bytes(frame, 12),
        frame[0] & 0xf0 == 0x80,
        ssid.len() <= 32,
        valid_utf8(ssid),
        frame.subrange(body_start(frame) + 12, frame.len() as int) == seq![0u8, ssid.len() as u8]
            + ssid + seq![3u8, 1, channel] + rest,
        search_continued(frame, rssi, wanted, action),
    ensures
        decode_utf8(ssid) == wanted ==> {
            &&& action matches PostChannelScanAction::Stop(bss)
            &&& bss.ssid@ == wanted
            &&& bss.channel == channel
            &&& bss.bssid@ == frame.subrange(16, 22)
            &&& bss.last_rssi == rssi
        },
        decode_utf8(ssid) != wanted ==> action is Continue,
{
    let found = if let PostChannelScanAction::Stop(bss) = action {
        bss
    } else {
        arbitrary()
    };
    beacons_describe_their_network(frame, ssid, channel, rest, rssi, found);
    assert(seq![0u8, ssid.len() as u8] + ssid + seq![3u8, 1, channel] + rest =~= seq![
        0u8,
        ssid.len() as u8,
    ] + ssid + (seq![3u8, 1, channel] + rest));
    searches_go_by_the_ssid(frame, ssid, seq![3u8, 1, channel] + rest, wanted);
}

/// An enumeration lists every network whose beacon it sees, once, as long as there is room, and goes on
/// until the list is full.
pub proof fn enumerations_list_networks_once(
    before: BssList,
    after: BssList,
    frame: Seq<u8>,
    ssid: Seq<u8>,
    channel: u8,
    rest: Seq<u8>,
    rssi: i8,
    action: PostChannelScanAction<()>,
)
    requires
        management_bytes(frame, 12),
        frame[0] & 0xf0 == 0x80,
        ssid.len() <= 32,
        valid_utf8(ssid),
        frame.subrange(body_start(frame) + 12, frame.len() as int) == seq![0u8, ssid.len() as u8]
            + ssid + seq![3u8, 1, channel] + rest,
        network_listed(before, after, frame, rssi, action),
    ensures
        ({
            let known = exists|i: int|
                0 <= i < before@.len() && (#[trigger] before@[i]).bssid@ == frame.subrange(16, 22);
            &&& !known && before@.len() < before.spec_capacity() ==> {
                &&& after@.len() == before@.len() + 1
                &&& after@.drop_last() == before@
                &&& after@.last().bssid@ == frame.subrange(16, 22)
                &&& after@.last().channel == channel
                &&& after@.last().ssid@ == decode_utf8(ssid)
                &&& after@.last().last_rssi == rssi
            }
            &&& known || before@.len() >= before.spec_capacity() ==> after@ == before@
            &&& after@.len() < after.spec_capacity() ==> action is Continue
            &&& after@.len() == after.spec_capacity() ==> action is Stop
        }),
{
    lemma_beacon_bits(frame[0]);
    let found = if after@.len() > 0 {
        after@.last()
    } else {
        arbitrary()
    };
    beacons_describe_their_network(frame, ssid, channel, rest, rssi, found);
    known_networks_are_listed(before, frame.subrange(16, 22));
}

} // verus!

//! Tests of the transmit probe.
use foa::tx_probe::{
    accept_msdu_at, arm, counters, disarm, entry, finished, gateway_echo_sequence, len, picked, queued,
    Counters, Phase, Recorder, State, Tag,
};
use foa::radio::TxError;

const GW: [u8; 4] = [10, 0, 0, 1];

fn packet(ihl: usize, padding: usize) -> Vec<u8> {
    let mut p = vec![0; 14 + ihl + 520 + padding];
    p[12..14].copy_from_slice(&[8, 0]);
    p[14] = 0x40 | (ihl / 4) as u8;
    p[16..18].copy_from_slice(&((ihl + 520) as u16).to_be_bytes());
    p[23] = 1;
    p[30..34].copy_from_slice(&GW);
    let offset = 14 + ihl;
    p[offset] = 8;
    p[offset + 4..offset + 8].copy_from_slice(&[0x53, 0x53, 0, 8]);
    p[offset + 8..offset + 520].fill(0x5a);
    p
}

#[test]
fn owned_shape_with_options_and_padding() {
    for header in (20..=60).step_by(4) {
        for padding in [0, 18] {
            assert_eq!(gateway_echo_sequence(&packet(header, padding), GW), Some(8));
        }
    }
}

#[test]
fn every_truncation_is_rejected() {
    let p = packet(20, 0);
    for n in 0..p.len() {
        assert_eq!(gateway_echo_sequence(&p[..n], GW), None, "length {n}");
    }
}

#[test]
fn unrelated_headers_and_payload_rejected() {
    let base = packet(20, 0);
    for (offset, value) in [
        (12, 0),
        (14, 0x65),
        (14, 0x44),
        (23, 17),
        (30, 11),
        (20, 0x20),
        (21, 1),
        (34, 0),
        (35, 1),
        (38, 0),
        (41, 0),
        (41, 21),
        (42, 0),
    ] {
        let mut p = base.clone();
        p[offset] = value;
        assert_eq!(gateway_echo_sequence(&p, GW), None, "offset {offset}");
    }
}

#[test]
fn dont_validate_or_record_checksums_or_addresses() {
    let mut p = packet(20, 0);
    p[..12].fill(0xa5);
    p[24..26].fill(0xff);
    p[36..38].fill(0xff);
    assert_eq!(gateway_echo_sequence(&p, GW), Some(8));
}

#[test]
fn recorder_retains_failures_and_incomplete_entries() {
    let mut p = Recorder::<3>::new();
    let a = p.accept(1, 8, 10).unwrap();
    p.queued(a, 11);
    p.picked(a, 12);
    p.finished(a, 13, Ok(2));
    let old = p.entries[0];
    p.finished(a, 14, Ok(0));
    assert_eq!(p.entries[0], old);
    let b = p.accept(2, 8, 20).unwrap();
    assert_ne!(a, b);
    p.queued(b, 21);
    assert_eq!(p.entries[1].phase, Phase::Queued);
    assert_eq!(p.entries[1].completion, None);
    let c = p.accept(2, 8, 30).unwrap();
    p.queued(c, 31);
    p.picked(c, 32);
    p.finished(c, 33, Ok(7));
    assert_eq!(p.entries[2].completion, Some(Ok(7)));
    assert_eq!(p.counters.invalid_events, 1);
    assert_eq!(p.accept(3, 1, 40), None);
    assert_eq!(p.counters.capacity_rejections, 1);
    assert_eq!(p.entries[0], old);
}

#[test]
fn invalid_order_and_time_do_not_advance_state() {
    let mut p = Recorder::<1>::new();
    let a = p.accept(1, 1, 10).unwrap();
    p.picked(a, 11);
    p.queued(a, 9);
    p.queued(
        Tag {
            ordinal: 99,
            slot: 0,
        },
        12,
    );
    assert_eq!(p.entries[0].phase, Phase::Accepted);
    assert_eq!(p.counters.invalid_events, 3);
    p.queued(a, 11);
    p.picked(a, 10);
    assert_eq!(p.entries[0].phase, Phase::Queued);
    p.picked(a, 12);
    p.finished(a, 11, Ok(0));
    assert_eq!(p.entries[0].phase, Phase::Picked);
}

#[test]
fn capacity_and_identity_exhaustion_never_overwrite() {
    assert_eq!(Recorder::<0>::new().accept(1, 1, 0), None);
    let mut p = Recorder::<2>::new();
    p.last_tag = u32::MAX - 1;
    assert_eq!(p.accept(1, 1, 0).unwrap().ordinal(), u32::MAX);
    assert_eq!(p.accept(1, 2, 1), None);
    assert_eq!(p.counters.tag_exhaustion, 1);
    assert_eq!(p.used, 1);
}

#[test]
fn invalid_identity_does_not_consume_space() {
    let mut p = Recorder::<1>::new();
    for (c, n) in [(0, 1), (1, 0), (1, 21)] {
        assert_eq!(p.accept(c, n, 0), None);
    }
    assert_eq!(p.used, 0);
    assert_eq!(p.accept(1, 1, 0).unwrap().ordinal(), 1);
}

#[test]
fn scope_decides_what_is_recorded() {
    let mut state = State::new();
    assert_eq!(accept_msdu_at(&mut state, &packet(20, 0), 5), None);
    assert!(!arm(&mut state, 0, GW));
    assert!(arm(&mut state, 7, GW));
    let tag = accept_msdu_at(&mut state, &packet(20, 0), 5).unwrap();
    assert_eq!(tag, Tag { ordinal: 1, slot: 0 });
    assert_eq!(len(&state), 1);
    let recorded = entry(&state, 0).unwrap();
    assert_eq!((recorded.cycle, recorded.sequence, recorded.accepted_us), (7, 8, 5));
    assert_eq!(recorded.phase, Phase::Accepted);
    disarm(&mut state);
    assert_eq!(accept_msdu_at(&mut state, &packet(20, 0), 6), None);
    assert!(entry(&state, 1).is_none());
    // Cycle zero was refused.
    assert_eq!(counters(&state), Counters { invalid_events: 1, ..Counters::default() });
}

#[test]
fn events_are_stamped_with_the_clock() {
    let mut state = State::new();
    assert!(arm(&mut state, 1, GW));
    let tag = accept_msdu_at(&mut state, &packet(20, 0), 0).unwrap();
    queued(&mut state, tag);
    picked(&mut state, tag);
    finished(&mut state, tag, Err(TxError::AckTimeout));
    let recorded = entry(&state, 0).unwrap();
    assert_eq!(recorded.phase, Phase::Finished);
    assert_eq!(recorded.completion, Some(Err(TxError::AckTimeout)));
    assert!(recorded.queued_us <= recorded.picked_us);
    assert!(recorded.picked_us <= recorded.finished_us);
    assert_eq!(counters(&state), Counters::default());
}

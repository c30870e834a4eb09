use antiknob::fd::{build_packet, modifier_entry, parse_sequence, record_matches, wipe_packet, Step};
use antiknob::firmware::{FD_ENTRY_LEN, FD_HEADER_LEN, FD_MAX_ENTRIES, REPORT_LEN};
use antiknob::protocol::Action;

fn kb(spec: &str) -> Step {
    Step::now(Action::parse(spec).unwrap())
}

#[test]
fn a_keyboard_chain_matches_what_the_device_echoed() {
    let packet = build_packet(2, 0, &vec![kb("a"), kb("b"), kb("c")]).unwrap();
    assert_eq!(
        &packet[..16],
        &[0x03, 0xFD, 2, 1, 1, 0, 3, 0, 0, 0x04, 0, 0, 0x05, 0, 0, 0x06]
    );
    assert!(packet[16..].iter().all(|b| *b == 0));
}

#[test]
fn a_delay_is_sixteen_bits_big_endian() {
    let steps = vec![kb("a"), Step { action: Action::parse("b").unwrap(), delay_ms: 500 }];
    let packet = build_packet(3, 0, &steps).unwrap();
    assert_eq!(&packet[..13], &[0x03, 0xFD, 3, 1, 1, 0, 2, 0, 0, 0x04, 0x01, 0xF4, 0x05]);
    let big = build_packet(3, 0, &vec![Step { action: Action::parse("a").unwrap(), delay_ms: 50200 }]).unwrap();
    assert_eq!(&big[7..10], &[0xC4, 0x18, 0x04]);
}

#[test]
fn a_chord_becomes_one_entry_per_modifier_then_the_key() {
    let packet = build_packet(2, 0, &vec![kb("ctrl-c")]).unwrap();
    assert_eq!(packet[6], 2, "two entries: the modifier and the key");
    assert_eq!(&packet[7..13], &[0, 0, 0xF1, 0, 0, 0x06]);

    let undo = build_packet(2, 0, &vec![kb("cmd-z")]).unwrap();
    assert_eq!(&undo[7..13], &[0, 0, 0xF4, 0, 0, 0x1D]);
}

#[test]
fn every_modifier_bit_has_its_measured_entry() {
    for (spec, want) in [
        ("ctrl-a", 0xF1u8),
        ("shift-a", 0xF2),
        ("alt-a", 0xF3),
        ("cmd-a", 0xF4),
        ("rctrl-a", 0xF5),
        ("rshift-a", 0xF6),
        ("ralt-a", 0xF7),
        ("rcmd-a", 0xF8),
    ] {
        let p = build_packet(2, 0, &vec![kb(spec)]).unwrap();
        assert_eq!(p[9], want, "{spec}");
        assert_eq!(p[12], 0x04, "{spec} still ends in the key");
    }
    for bit in 0..8u8 {
        assert_eq!(modifier_entry(bit), 0xF1 + bit);
    }
}

#[test]
fn multiple_modifiers_are_emitted_in_hid_bit_order() {
    let p = build_packet(2, 0, &vec![kb("cmd-shift-4")]).unwrap();
    assert_eq!(p[6], 3);
    assert_eq!(p[9], 0xF2, "shift (bit 1) before cmd (bit 3)");
    assert_eq!(p[12], 0xF4);
    assert_eq!(p[15], 0x21, "the digit 4");
}

#[test]
fn a_media_usage_spans_two_entries_low_byte_first() {
    let p = build_packet(6, 0, &vec![Step::now(Action::Media(0x0192))]).unwrap();
    assert_eq!(p[4], 2, "media kind");
    assert_eq!(p[6], 2, "two value bytes");
    assert_eq!(&p[7..13], &[0, 0, 0x92, 0, 0, 0x01]);

    let stop = build_packet(2, 0, &vec![Step::now(Action::parse("stop").unwrap())]).unwrap();
    assert_eq!(&stop[7..13], &[0, 0, 0xB7, 0, 0, 0x00]);
}

#[test]
fn nineteen_entries_fill_the_report_and_twenty_are_refused() {
    assert_eq!(FD_MAX_ENTRIES, 19);
    assert_eq!(FD_HEADER_LEN + FD_MAX_ENTRIES * FD_ENTRY_LEN, REPORT_LEN);

    let ok: Vec<Step> = (0..19).map(|_| kb("a")).collect();
    assert_eq!(build_packet(2, 0, &ok).expect("19 fits")[6], 19);

    let over: Vec<Step> = (0..20).map(|_| kb("a")).collect();
    let err = build_packet(2, 0, &over).expect_err("20 must be refused");
    assert!(err.message().contains("truncated"), "{}", err.message());
}

#[test]
fn the_limit_counts_entries_not_actions() {
    let steps: Vec<Step> = (0..10).map(|_| kb("ctrl-a")).collect();
    let err = build_packet(2, 0, &steps).expect_err("20 entries must be refused");
    assert!(err.message().contains("20 entries"), "{}", err.message());
    assert!(err.message().contains("chord costs"), "{}", err.message());
}

#[test]
fn a_media_sequence_is_refused_because_the_device_stores_one() {
    let two = vec![
        Step::now(Action::parse("volumeup").unwrap()),
        Step::now(Action::parse("next").unwrap()),
    ];
    let err = build_packet(7, 0, &two).expect_err("a media chain must be refused");
    assert!(err.message().contains("one media action"), "{}", err.message());
    assert!(build_packet(7, 0, &two[..1].to_vec()).is_ok());
    let keys: Vec<Step> = (0..5).map(|_| kb("a")).collect();
    assert!(build_packet(7, 0, &keys).is_ok());
}

#[test]
fn a_sequence_mixing_keyboard_and_media_is_refused() {
    let mixed = vec![kb("a"), Step::now(Action::parse("mute").unwrap())];
    let err = build_packet(4, 0, &mixed).expect_err("mixed kinds must be refused");
    assert!(err.message().contains("mixes"), "{}", err.message());
}

#[test]
fn mouse_actions_are_refused_rather_than_guessed_at() {
    for spec in ["click", "wheelup"] {
        let err = build_packet(4, 0, &vec![kb(spec)]).expect_err("mouse must be refused");
        assert!(err.message().contains("0xFE"), "{spec}: {}", err.message());
    }
}

#[test]
fn an_empty_sequence_binds_nothing_and_is_refused() {
    let err = build_packet(4, 0, &vec![]).expect_err("empty must be refused");
    assert!(err.message().contains("empty"), "{}", err.message());
}

#[test]
fn the_layer_byte_is_one_based_on_the_wire() {
    for layer in 0..3u8 {
        assert_eq!(build_packet(4, layer, &vec![kb("a")]).unwrap()[3], layer + 1);
    }
}

#[test]
fn the_wipe_record_covers_every_entry() {
    let w = wipe_packet(7, 1);
    assert_eq!(&w[..7], &[0x03, 0xFD, 7, 2, 1, 0, 18]);
    assert!(w[7..].iter().all(|b| *b == 0), "entries must be zero");
}

#[test]
fn a_readback_of_what_was_written_matches() {
    let sent = build_packet(7, 0, &vec![kb("cmd-x"), kb("cmd-z")]).unwrap();
    let mut back = sent.clone();
    back[1] = 0xFA;
    back[5] = 1;
    assert!(record_matches(&sent, &back));
}

#[test]
fn a_readback_differing_in_any_binding_byte_is_rejected() {
    let sent = build_packet(7, 0, &vec![kb("a"), kb("b")]).unwrap();
    let end = FD_HEADER_LEN + 2 * FD_ENTRY_LEN;
    for i in (2..5).chain(6..end).chain(std::iter::once(0)) {
        let mut bad = sent.clone();
        bad[1] = 0xFA;
        bad[i] = bad[i].wrapping_add(1);
        assert!(
            !record_matches(&sent, &bad),
            "a device storing a different byte {i} would be reported as confirmed"
        );
    }
    let one = build_packet(7, 0, &vec![kb("a")]).unwrap();
    let mut short = one.clone();
    short[1] = 0xFA;
    assert!(!record_matches(&sent, &short), "a partial write is not success");
    assert!(!record_matches(&sent, &vec![]));
}

#[test]
fn parse_sequence_reads_a_list_of_action_names() {
    let specs = vec!["cmd-c".to_string(), "cmd-v".to_string()];
    let steps = parse_sequence(&specs).unwrap();
    assert_eq!(steps.len(), 2);
    assert_eq!(steps[0].delay_ms, 0);
    assert!(parse_sequence(&vec!["notakey".to_string()]).is_err());
}

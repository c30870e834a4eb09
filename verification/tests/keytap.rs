use antiknob::daemon::keytap::{accessibility_hint, decode, side_bits_for, EventKind, KeyEvent};

const L_CTRL: u16 = 59;
const R_CTRL: u16 = 62;
const FN_KEY: u16 = 63;
const CTRL_FLAG: u64 = 0x0004_0000;
const L_CTRL_BIT: u64 = 0x0000_0001;
const R_CTRL_BIT: u64 = 0x0000_2000;

const MODIFIERS: &[(u16, u64, u64)] = &[
    (59, 0x0000_0001, 0x0004_0000),
    (62, 0x0000_2000, 0x0004_0000),
    (56, 0x0000_0002, 0x0002_0000),
    (60, 0x0000_0004, 0x0002_0000),
    (55, 0x0000_0008, 0x0010_0000),
    (54, 0x0000_0010, 0x0010_0000),
    (58, 0x0000_0020, 0x0008_0000),
    (61, 0x0000_0040, 0x0008_0000),
    (63, 0x0000_0000, 0x0080_0000),
];

#[test]
fn plain_keys_decode_by_event_type() {
    assert_eq!(decode(EventKind::KeyDown, 40, 0), Some(KeyEvent { code: 40, pressed: true }));
    assert_eq!(decode(EventKind::KeyUp, 40, 0), Some(KeyEvent { code: 40, pressed: false }));
}

#[test]
fn events_that_are_not_key_transitions_are_ignored() {
    assert_eq!(decode(EventKind::Other, 0, 0), None);
    assert_eq!(decode(EventKind::FlagsChanged, 40, CTRL_FLAG), None);
}

#[test]
fn a_modifier_press_and_release_are_derived_from_the_flags() {
    assert_eq!(
        decode(EventKind::FlagsChanged, L_CTRL, CTRL_FLAG | L_CTRL_BIT),
        Some(KeyEvent { code: L_CTRL, pressed: true })
    );
    assert_eq!(decode(EventKind::FlagsChanged, L_CTRL, 0), Some(KeyEvent { code: L_CTRL, pressed: false }));
}

#[test]
fn releasing_one_side_while_the_other_is_held_is_reported_for_the_key_that_moved() {
    let flags = CTRL_FLAG | R_CTRL_BIT;
    assert_eq!(decode(EventKind::FlagsChanged, L_CTRL, flags), Some(KeyEvent { code: L_CTRL, pressed: false }));
    assert_eq!(decode(EventKind::FlagsChanged, R_CTRL, flags), Some(KeyEvent { code: R_CTRL, pressed: true }));
}

#[test]
fn a_press_reported_without_side_bits_is_still_a_press() {
    assert_eq!(decode(EventKind::FlagsChanged, L_CTRL, CTRL_FLAG), Some(KeyEvent { code: L_CTRL, pressed: true }));
}

#[test]
fn fn_has_no_side_bit_and_still_decodes() {
    assert_eq!(decode(EventKind::FlagsChanged, FN_KEY, 0x0080_0000), Some(KeyEvent { code: FN_KEY, pressed: true }));
    assert_eq!(decode(EventKind::FlagsChanged, FN_KEY, 0), Some(KeyEvent { code: FN_KEY, pressed: false }));
}

#[test]
fn every_tracked_modifier_decodes_both_ways() {
    for (code, side, family) in MODIFIERS {
        let down = decode(EventKind::FlagsChanged, *code, family | side);
        let up = decode(EventKind::FlagsChanged, *code, 0);
        assert_eq!(down, Some(KeyEvent { code: *code, pressed: true }), "keycode {code} did not decode as a press");
        assert_eq!(up, Some(KeyEvent { code: *code, pressed: false }), "keycode {code} did not decode as a release");
    }
}

#[test]
fn the_side_bits_of_a_modifier_cover_both_sides() {
    assert_eq!(side_bits_for(L_CTRL), 0x2001);
    assert_eq!(side_bits_for(R_CTRL), 0x2001);
    assert_eq!(side_bits_for(56), 0x6);
    assert_eq!(side_bits_for(FN_KEY), 0);
    assert_eq!(side_bits_for(40), 0);
    assert!(accessibility_hint().contains("Accessibility"));
}

use antiknob::device::mode::{classify, KnobMode};

const SLOT_MODS: u8 = 0x05;

fn rec(key_id: u8, kind: u8, media: u8, mods: u8, code: u8) -> Vec<u8> {
    let mut r = vec![0u8; 64];
    r[0] = 0x03;
    r[1] = 0xFA;
    r[2] = key_id;
    r[3] = 1;
    r[4] = kind;
    r[9] = media;
    r[11] = mods;
    r[12] = code;
    r
}

fn standalone_table() -> Vec<Vec<u8>> {
    vec![
        rec(1, 1, 0, 0x08, 0x06),
        rec(4, 2, 0xEA, 0, 0),
        rec(5, 2, 0xE2, 0, 0),
        rec(6, 2, 0xE9, 0, 0),
    ]
}

fn host_translate_table() -> Vec<Vec<u8>> {
    vec![
        rec(1, 1, 0, 0x08, 0x06),
        rec(4, 1, 0, SLOT_MODS, 0x6B),
        rec(5, 1, 0, SLOT_MODS, 0x6C),
        rec(6, 1, 0, SLOT_MODS, 0x6D),
    ]
}

#[test]
fn media_bindings_on_the_knob_read_as_standalone() {
    assert_eq!(classify(&standalone_table(), 3), KnobMode::Standalone);
}

#[test]
fn slot_chords_on_the_knob_read_as_host_translate() {
    assert_eq!(classify(&host_translate_table(), 3), KnobMode::HostTranslate);
}

#[test]
fn an_absent_or_empty_table_is_unknown_rather_than_a_mode() {
    assert_eq!(classify(&vec![], 3), KnobMode::Unknown);
    assert_eq!(classify(&vec![rec(1, 1, 0, 0x08, 0x06)], 3), KnobMode::Unknown);
    let empty = vec![rec(4, 2, 0, 0, 0), rec(5, 2, 0, 0, 0)];
    assert_eq!(classify(&empty, 3), KnobMode::Unknown);
}

#[test]
fn the_button_count_decides_which_slots_are_read() {
    assert_eq!(classify(&standalone_table(), 15), KnobMode::Unknown);
    assert_eq!(classify(&host_translate_table(), 15), KnobMode::Unknown);
}

#[test]
fn a_partially_bound_knob_is_host_translate() {
    let mixed = vec![
        rec(4, 1, 0, SLOT_MODS, 0x6B),
        rec(5, 2, 0xE2, 0, 0),
        rec(6, 2, 0xE9, 0, 0),
    ];
    assert_eq!(classify(&mixed, 3), KnobMode::HostTranslate);
}

#[test]
fn an_unmodified_function_key_is_not_a_slot_chord() {
    let bare = vec![rec(4, 1, 0, 0, 0x6B)];
    assert_eq!(classify(&bare, 3), KnobMode::Standalone);
}

#[test]
fn knob_modes_have_their_names() {
    assert_eq!(KnobMode::HostTranslate.as_str(), "host-translate");
    assert_eq!(KnobMode::Standalone.as_str(), "standalone");
    assert_eq!(KnobMode::Unknown.as_str(), "unknown");
}

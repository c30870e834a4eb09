use antiknob::device::verify::{parse_record, summarize, verify, SlotAction, SlotAddr, SlotVerdict};

fn record(tag: u8, key_id: u8, layer: u8, kind: u8, media: u8, mods: u8, code: u8) -> Vec<u8> {
    let mut r = vec![0u8; 64];
    r[0] = 0x03;
    r[1] = tag;
    r[2] = key_id;
    r[3] = layer;
    r[4] = kind;
    r[9] = media;
    r[11] = mods;
    r[12] = code;
    r
}

fn written(key_id: u8, media: u8) -> Vec<u8> {
    record(0xFE, key_id, 1, 2, media, 0, 0)
}
fn observed(key_id: u8, media: u8) -> Vec<u8> {
    record(0xFA, key_id, 1, 2, media, 0, 0)
}

#[test]
fn a_write_that_reads_back_unchanged_is_confirmed() {
    let v = verify(&vec![written(4, 0xEA)], &vec![observed(4, 0xEA)]);
    assert_eq!(v, vec![(SlotAddr { key_id: 4, layer: 1 }, SlotVerdict::Confirmed)]);
    assert_eq!(summarize(&v), None);
}

#[test]
fn a_slot_still_holding_its_old_action_is_reported_as_mismatched() {
    let v = verify(&vec![written(4, 0xEA)], &vec![observed(4, 0xE9)]);
    assert_eq!(v[0].1, SlotVerdict::Mismatched);
    let msg = summarize(&v).expect("a mismatch must be reported");
    assert!(msg.contains("key 4 layer 1"), "{msg}");
}

#[test]
fn a_slot_the_dump_never_showed_is_unconfirmed_not_confirmed() {
    let v = verify(&vec![written(4, 0xEA)], &vec![observed(5, 0xEA)]);
    assert_eq!(v[0].1, SlotVerdict::NotSeen);
    let msg = summarize(&v).expect("an unconfirmed write must be reported");
    assert!(msg.contains("unconfirmed"), "{msg}");
}

#[test]
fn requests_and_replies_parse_through_the_same_offsets() {
    let want = (
        SlotAddr { key_id: 4, layer: 1 },
        SlotAction { kind: 2, media: 0xEA, mods: 0, code: 0 },
    );
    assert_eq!(parse_record(&written(4, 0xEA)), Some(want));
    assert_eq!(parse_record(&observed(4, 0xEA)), Some(want));
}

#[test]
fn framing_that_is_not_a_slot_record_is_rejected() {
    assert_eq!(parse_record(&vec![]), None);
    assert_eq!(parse_record(&vec![0u8; 64]), None);
    assert_eq!(parse_record(&record(0xFE, 0xB0, 0, 0, 0, 0, 0)), None);
    assert_eq!(parse_record(&record(0xFA, 0xFF, 1, 2, 0, 0, 0)), None);
    assert_eq!(parse_record(&record(0xFA, 4, 9, 2, 0, 0, 0)), None);
}

#[test]
fn led_packets_are_not_slot_records() {
    let led = record(0xFE, 0xB0, 1, 5, 0, 0, 0);
    assert_eq!(parse_record(&led), None);
    let verdicts = verify(&vec![led, written(4, 0xEA)], &vec![observed(4, 0xEA)]);
    assert_eq!(verdicts.len(), 1, "only the real slot is verified");
    assert_eq!(summarize(&verdicts), None);
}

#[test]
fn keyboard_slots_compare_on_their_modifier_and_keycode() {
    let cmd_c = record(0xFE, 1, 2, 1, 0, 0x08, 0x06);
    let cmd_v = record(0xFA, 1, 2, 1, 0, 0x08, 0x19);
    assert_eq!(verify(&vec![cmd_c.clone()], &vec![cmd_v])[0].1, SlotVerdict::Mismatched);
    let echo = record(0xFA, 1, 2, 1, 0, 0x08, 0x06);
    assert_eq!(verify(&vec![cmd_c], &vec![echo])[0].1, SlotVerdict::Confirmed);
}

#[test]
fn the_first_record_at_an_address_is_the_one_compared() {
    let v = verify(&vec![written(4, 0xEA)], &vec![observed(4, 0xE9), observed(4, 0xEA)]);
    assert_eq!(v[0].1, SlotVerdict::Mismatched);
}

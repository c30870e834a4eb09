use antiknob::probe::{consumer_usage, note_usage, restore_width, snapshot_records, to_write};

fn rec(key: u8, layer: u8) -> Vec<u8> {
    let mut r = vec![0u8; 64];
    r[0] = 3;
    r[1] = 0xFA;
    r[2] = key;
    r[3] = layer;
    r[4] = 1;
    r
}

#[test]
fn a_read_record_becomes_the_write_that_reproduces_it() {
    let w = to_write(&rec(7, 1));
    assert_eq!(w.len(), 64);
    assert_eq!(w[1], 0xFE);
    assert_eq!(w[2], 7);
    let short = to_write(&vec![3, 0xFA, 9]);
    assert_eq!(&short[..4], &[3, 0xFE, 9, 0]);
    assert_eq!(short.len(), 64);
}

#[test]
fn only_the_probed_layers_candidates_are_saved() {
    let table = vec![rec(7, 1), rec(8, 1), rec(7, 2), rec(9, 1), vec![0, 1]];
    let saved = snapshot_records(&table, &vec![7, 9], 0);
    assert_eq!(saved, vec![rec(7, 1), rec(9, 1)]);
    assert_eq!(restore_width(&saved), 9);
    assert_eq!(restore_width(&vec![]), 3);
}

#[test]
fn the_capture_hears_each_consumer_usage_once() {
    assert_eq!(consumer_usage(&vec![0x05, 0xE9, 0x00]), Some(0x00E9));
    assert_eq!(consumer_usage(&vec![0x05, 0x00, 0x01]), None);
    assert_eq!(consumer_usage(&vec![0x05, 0xE9]), None);
    let mut seen = vec![];
    note_usage(&mut seen, 0xE9);
    note_usage(&mut seen, 0xEA);
    note_usage(&mut seen, 0xE9);
    assert_eq!(seen, vec![0xE9, 0xEA]);
}

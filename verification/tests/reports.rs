use antiknob::device::reports::{
    burst_query, commit_payload, first_records, frame_report, led_query, match_device, pick_vendor_interface, slot_query,
    snoop_label, SlotTable,
};
use antiknob::firmware::TransportType;

fn record(key: u8, layer: u8, tag: u8) -> Vec<u8> {
    let mut r = vec![0u8; 64];
    r[0] = 0x03;
    r[1] = 0xFA;
    r[2] = key;
    r[3] = layer;
    r[4] = tag;
    r
}

#[test]
fn a_payload_is_framed_behind_one_report_id() {
    let f = frame_report(&[0xFA, 0x0F, 0x00, 0x01]);
    assert_eq!(f.len(), 65);
    assert_eq!(&f[..5], &[0x03, 0xFA, 0x0F, 0x00, 0x01]);
    assert!(f[5..].iter().all(|b| *b == 0));
    let already = frame_report(&[0x03, 0xFD, 0xFE, 0xFF]);
    assert_eq!(&already[..4], &[0x03, 0xFD, 0xFE, 0xFF], "an ID already in front is not doubled");
    let long: Vec<u8> = (1..=70).collect();
    let cut = frame_report(&long);
    assert_eq!(cut.len(), 65);
    assert_eq!(cut[64], 64);
    assert_eq!(frame_report(&[]), {
        let mut v = vec![0u8; 65];
        v[0] = 3;
        v
    });
}

#[test]
fn queries_carry_their_command_bytes() {
    assert_eq!(&slot_query(0x0F, 2)[..4], &[0xFA, 0x0F, 0x00, 0x02]);
    assert_eq!(&burst_query(3)[..4], &[0xFA, 25, 0x00, 3]);
    assert_eq!(&led_query(1)[..4], &[0xFA, 0xB0, 1, 0]);
    assert_eq!(&commit_payload()[..4], &[0xFD, 0xFE, 0xFF, 0]);
    assert_eq!(commit_payload().len(), 64);
}

#[test]
fn overlapping_bursts_keep_the_first_record_at_each_address() {
    let mut table = SlotTable::new();
    assert!(table.absorb(record(1, 1, 7)));
    assert!(table.absorb(record(2, 1, 7)));
    assert!(!table.absorb(record(1, 1, 9)), "a repeat address is dropped");
    assert!(!table.absorb(vec![3, 0xFA, 5]), "a record too short to address is dropped");
    let kept = table.into_records();
    assert_eq!(kept.len(), 2);
    assert_eq!(kept[0][4], 7);
    let burst = vec![record(4, 2, 1), record(4, 1, 1), record(4, 2, 5), vec![1, 2]];
    let firsts = first_records(&burst);
    assert_eq!(firsts, vec![record(4, 2, 1), record(4, 1, 1)]);
}

#[test]
fn the_vendor_endpoint_is_opened_before_any_other_interface() {
    let devs = vec![(0x05AC, 0x0265, 0xFF00), (0x514C, 0x8850, 0x0001), (0x514C, 0x8850, 0xFF00)];
    assert_eq!(pick_vendor_interface(&devs), Some(2));
    let no_vendor = vec![(0x05AC, 0x0265, 0x0001), (0x1189, 0x8840, 0x0001)];
    assert_eq!(pick_vendor_interface(&no_vendor), Some(1));
    assert_eq!(pick_vendor_interface(&vec![(0x05AC, 0x0265, 0xFF00)]), None);
}

#[test]
fn an_enumerated_interface_becomes_a_listing_entry_only_when_it_is_ours() {
    let m = match_device(0x514C, 0x8850, true, Some("VK01"), Some("SN".to_string()), "p".to_string(), 0xFF00, 1, 2)
        .expect("listed");
    assert_eq!(m.transport, TransportType::Bluetooth);
    assert_eq!(m.name, "Anticater / LQKJ VK01 (0x514c:0x8850)");
    assert_eq!(m.serial_number.as_deref(), Some("SN"));
    assert_eq!(m.interface_number, 2);
    assert!(match_device(0x05AC, 0x0265, false, None, None, String::new(), 1, 1, -1).is_none());
    let named = match_device(0xDEAD, 0xBEEF, false, Some("My VK01"), None, String::new(), 1, 6, -1).unwrap();
    assert_eq!(named.name, "Anticater (My VK01)");
    assert_eq!(named.transport, TransportType::Usb);
}

#[test]
fn snooped_interfaces_are_labelled_by_ids_and_collection() {
    assert_eq!(snoop_label(0x514C, 0x8850, 0xFF00, 0x01), "514c:8850 up=0xff00 use=0x01");
    assert_eq!(snoop_label(0x25A7, 0xFA11, 0x000C, 0x0001), "25a7:fa11 up=0x000c use=0x01");
}

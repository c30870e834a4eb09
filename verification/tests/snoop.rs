use antiknob::device::snoop::{collection_name, collections_label, decode_input, parse_device_filter, wanted, DeviceFilter};

#[test]
fn device_filters_parse_both_hex_spellings() {
    let a = parse_device_filter("514c:8850").unwrap();
    let b = parse_device_filter("0x514C:0X8850").unwrap();
    assert_eq!(a, b);
    assert_eq!(a.vendor_id, 0x514C);
    assert_eq!(a.product_id, 0x8850);
    assert!(parse_device_filter("514c").is_err());
    assert!(parse_device_filter("zzzz:8850").is_err());
}

#[test]
fn no_filter_watches_everything_and_a_filter_narrows() {
    let knob = parse_device_filter("514c:8850").unwrap();
    assert!(wanted(&vec![], 0x25A7, 0xFA11));
    assert!(wanted(&vec![knob], 0x514C, 0x8850));
    assert!(!wanted(&vec![knob], 0x25A7, 0xFA11));
}

#[test]
fn the_knobs_real_report_decodes_as_volume_up() {
    assert_eq!(
        decode_input(&vec![(0x000C, 0x0001)], &vec![0x05, 0xE9, 0x00]),
        "<-- consumer 0x00e9 (volume up)"
    );
    assert_eq!(
        decode_input(&vec![(0x000C, 0x0001)], &vec![0x05, 0x00, 0x00]),
        "<-- consumer release"
    );
    assert_eq!(
        decode_input(&vec![(0x000C, 0x0001)], &vec![0x05, 0xEA, 0x00]),
        "<-- consumer 0x00ea (volume down)"
    );
}

#[test]
fn an_unknown_consumer_usage_reports_its_number_rather_than_guessing() {
    assert_eq!(
        decode_input(&vec![(0x000C, 0x0001)], &vec![0x05, 0x34, 0x12]),
        "<-- consumer 0x1234"
    );
}

#[test]
fn a_report_id_is_not_mistaken_for_the_button_byte() {
    let with_id = decode_input(&vec![(0x0001, 0x0002)], &vec![0x01, 0x00, 0x05, 0x00]);
    assert_eq!(with_id, "<-- mouse buttons=[] dx=5 dy=0 wheel=0");
    let without_id = decode_input(&vec![(0x0001, 0x0002)], &vec![0x01, 0x00, 0x05]);
    assert_eq!(without_id, "<-- mouse buttons=[left] dx=0 dy=5 wheel=0");
}

#[test]
fn keyboard_reports_decode_with_and_without_a_report_id() {
    let body = vec![0x05u8, 0, 0x6B, 0, 0, 0, 0, 0];
    let expected = "<-- keyboard mods=[ctrl+alt] keys=[6b]";
    assert_eq!(decode_input(&vec![(0x0001, 0x0006)], &body), expected);
    let mut with_id = vec![0x01u8];
    with_id.extend_from_slice(&body);
    assert_eq!(decode_input(&vec![(0x0001, 0x0006)], &with_id), expected);
}

#[test]
fn unknown_layouts_say_nothing_instead_of_guessing() {
    assert_eq!(decode_input(&vec![(0xFF00, 0x0001)], &vec![0x03, 0xFA, 0x01]), "");
    assert_eq!(decode_input(&vec![(0x0001, 0x0006)], &vec![0x05, 0x01, 0x6B]), "");
    assert_eq!(decode_input(&vec![(0x1234, 0x0001)], &vec![1, 2, 3]), "");
}

#[test]
fn a_consumer_report_on_a_multi_collection_device_is_not_read_as_keyboard() {
    let vk01 = vec![(0x0001u16, 0x0006u16), (0x0001, 0x0002), (0x0001, 0x0001), (0x000C, 0x0001)];
    assert_eq!(decode_input(&vk01, &vec![0x05, 0xE9, 0x00]), "<-- consumer 0x00e9 (volume up)");
    assert_eq!(decode_input(&vec![(0x0001, 0x0006)], &vec![0x05, 0xE9, 0x00]), "");
}

#[test]
fn brightness_codes_match_what_the_firmware_is_flashed_with() {
    assert_eq!(
        decode_input(&vec![(0x000C, 0x0001)], &vec![0x05, 0x6F, 0x00]),
        "<-- consumer 0x006f (brightness up)"
    );
    assert_eq!(
        decode_input(&vec![(0x000C, 0x0001)], &vec![0x05, 0x70, 0x00]),
        "<-- consumer 0x0070 (brightness down)"
    );
}

#[test]
fn collections_read_as_names_and_unknown_ones_keep_their_hex() {
    let vk01 = vec![(0x0001u16, 0x0006u16), (0x0001, 0x0002), (0x0001, 0x0001), (0x000C, 0x0001)];
    assert_eq!(collections_label(&vk01), "kbd mouse pointer consumer");
    assert_eq!(collections_label(&vec![(0xFF00, 0x0001)]), "vendor:0xff00/0x01");
    assert_eq!(collections_label(&vec![(0x000D, 0x0004)]), "0x000d/0x04");
    assert_eq!(collections_label(&vec![]), "");
}

#[test]
fn vendor_slot_replies_are_named() {
    assert_eq!(
        decode_input(&vec![(0xFF00, 0x0001)], &vec![0x03, 0xFA, 17, 0]),
        "<-- vendor slot key_id=17"
    );
}

#[test]
fn filter_errors_name_what_was_typed() {
    assert_eq!(parse_device_filter("514c").unwrap_err(), "expected VID:PID, got `514c`");
    assert_eq!(parse_device_filter(" zz :8850").unwrap_err(), "` zz ` is not a 16-bit hex id");
    assert_eq!(parse_device_filter("514c:10000").unwrap_err(), "`10000` is not a 16-bit hex id");
    assert_eq!(
        parse_device_filter(" 0x0x514c : +8850 ").unwrap(),
        DeviceFilter { vendor_id: 0x514C, product_id: 0x8850 }
    );
    assert!(parse_device_filter(":").is_err());
    assert!(DeviceFilter { vendor_id: 1, product_id: 2 }.matches(1, 2));
    assert!(!DeviceFilter { vendor_id: 1, product_id: 2 }.matches(2, 1));
}

#[test]
fn repeated_collections_are_named_once_and_wheels_are_signed() {
    assert_eq!(collections_label(&vec![(0x0001, 0x0006), (0x0001, 0x0006), (0x000C, 0x0001)]), "kbd consumer");
    assert_eq!(collection_name(0x0001, 0x0080), "sysctl");
    assert_eq!(
        decode_input(&vec![(0x0001, 0x0002)], &vec![0x07, 0xFF, 0x80, 0x01]),
        "<-- mouse buttons=[left+right+middle] dx=-128 dy=1 wheel=0"
    );
    assert_eq!(
        decode_input(&vec![(0x0001, 0x0006)], &vec![0xFF, 0, 4, 0, 5, 0, 0, 0]),
        "<-- keyboard mods=[ctrl+shift+alt+cmd+r-ctrl+r-shift+r-alt+r-cmd] keys=[04 05]"
    );
}

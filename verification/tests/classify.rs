use antiknob::device::classify::{classify_device, names_anticater};
use antiknob::firmware::TransportType;

const VK01_USB: (u16, u16) = (0x514C, 0x8850);
const RECEIVER_24G: (u16, u16) = (0x25A7, 0xFA11);

#[test]
fn a_listed_device_takes_the_table_transport() {
    let (name, transport) =
        classify_device(VK01_USB.0, VK01_USB.1, false, "Anticater VK01").expect("listed");
    assert_eq!(transport, TransportType::Usb);
    assert!(name.contains("Anticater"), "unhelpful name: {name}");

    let (_, transport) =
        classify_device(RECEIVER_24G.0, RECEIVER_24G.1, false, "").expect("listed receiver");
    assert_eq!(transport, TransportType::Wireless24G);
}

#[test]
fn a_listed_device_on_a_bluetooth_bus_is_bluetooth() {
    let (_, transport) =
        classify_device(VK01_USB.0, VK01_USB.1, true, "Anticater VK01").expect("listed");
    assert_eq!(transport, TransportType::Bluetooth);
}

#[test]
fn an_unlisted_anticater_on_usb_is_not_called_bluetooth() {
    let (_, transport) = classify_device(0xDEAD, 0xBEEF, false, "Anticater VK01 Rev B")
        .expect("name match should still be recognised");
    assert_eq!(
        transport,
        TransportType::Usb,
        "an unlisted device on a non-Bluetooth bus was reported as Bluetooth"
    );
}

#[test]
fn an_unlisted_anticater_on_bluetooth_is_bluetooth() {
    let (_, transport) =
        classify_device(0xDEAD, 0xBEEF, true, "vk-01 knob").expect("name match");
    assert_eq!(transport, TransportType::Bluetooth);
}

#[test]
fn the_name_match_is_case_insensitive_across_its_spellings() {
    for product in ["ANTICATER", "Anticater", "vk01", "VK-01", "my vk01 knob"] {
        assert!(
            classify_device(0xDEAD, 0xBEEF, false, product).is_some(),
            "{product:?} was not recognised"
        );
    }
}

#[test]
fn an_unrelated_device_is_never_claimed() {
    assert!(classify_device(0x05AC, 0x0265, false, "Apple Trackpad").is_none());
    assert!(classify_device(0x05AC, 0x0265, true, "Magic Keyboard").is_none());
    assert!(classify_device(0xDEAD, 0xBEEF, true, "").is_none());
}

#[test]
fn a_nameless_match_still_gets_a_readable_name() {
    let (name, _) = classify_device(RECEIVER_24G.0, RECEIVER_24G.1, false, "").expect("listed");
    assert!(!name.is_empty());
}

#[test]
fn an_unlisted_match_is_named_after_its_product_or_its_transport() {
    let (name, _) = classify_device(0xDEAD, 0xBEEF, false, "vk01 knob").expect("name match");
    assert_eq!(name, "Anticater (vk01 knob)");
    let (name, t) = classify_device(0x514C, 0x8850, false, "").expect("listed");
    assert_eq!(name, "Anticater / LQKJ VK01 (0x514c:0x8850)");
    assert_eq!(t, TransportType::Usb);
}

#[test]
fn a_lower_case_name_is_matched_as_given() {
    assert!(names_anticater("anticater vk01 knob"));
    assert!(names_anticater("the vk-01"));
    assert!(!names_anticater("ANTICATER"));
    assert!(!names_anticater("vk-0 1"));
}

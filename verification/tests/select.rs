use antiknob::device::select::{primary_device, primary_transport};
use antiknob::device::DeviceMatch;
use antiknob::firmware::{TransportType, VENDOR_USAGE_PAGE};

fn iface(pid: u16, usage_page: u16, name: &str) -> DeviceMatch {
    DeviceMatch {
        vendor_id: 0x514C,
        product_id: pid,
        name: name.to_string(),
        serial_number: None,
        path: format!("DevSrvsID:{pid}{usage_page}"),
        usage_page,
        usage: 6,
        interface_number: 0,
        transport: TransportType::Usb,
    }
}

fn receiver() -> DeviceMatch {
    DeviceMatch {
        vendor_id: 0x25A7,
        product_id: 0xFA11,
        name: "Anticater 2.4G Receiver".to_string(),
        serial_number: None,
        path: "DevSrvsID:fa11".to_string(),
        usage_page: 0x0001,
        usage: 6,
        interface_number: 0,
        transport: TransportType::Wireless24G,
    }
}

#[test]
fn the_primary_is_the_interface_commands_are_sent_to() {
    let attached = vec![
        iface(0x4155, 0x0001, "Anticater / LiQi"),
        iface(0x4155, 0x000C, "Anticater / LiQi"),
        iface(0x8850, 0x0001, "Anticater / LQKJ VK01"),
        iface(0x8850, VENDOR_USAGE_PAGE, "Anticater / LQKJ VK01"),
    ];
    let picked = primary_device(&attached).expect("a vendor endpoint is attached");
    assert_eq!(picked.usage_page, VENDOR_USAGE_PAGE);
    assert_eq!(picked.product_id, 0x8850);
}

#[test]
fn without_a_vendor_endpoint_the_first_supported_interface_stands_in() {
    let attached = vec![iface(0x8850, 0x0001, "Anticater / LQKJ VK01")];
    assert_eq!(primary_device(&attached).map(|d| d.product_id), Some(0x8850));
}

#[test]
fn nothing_attached_names_nothing() {
    assert!(primary_device(&vec![]).is_none());
    assert!(primary_transport(&vec![]).is_none());
}

#[test]
fn wireless_receiver_is_primary_when_no_vendor_endpoint() {
    let attached = vec![receiver()];
    let dev = primary_device(&attached).expect("2.4g receiver present");
    assert_eq!(dev.product_id, 0xFA11);
    assert_eq!(primary_transport(&attached), Some(TransportType::Wireless24G));
}

#[test]
fn wired_knob_preferred_over_wireless_receiver_when_both_present() {
    let attached = vec![receiver(), iface(0x8850, VENDOR_USAGE_PAGE, "Anticater / LQKJ VK01")];
    let dev = primary_device(&attached).expect("device present");
    assert_eq!(dev.product_id, 0x8850);
    assert_eq!(primary_transport(&attached), Some(TransportType::Usb));
}

use antiknob::api::socket::{invalid_request_message, read_bounded_line, INVALID_REQUEST};
use antiknob::api::socket::{bounded_line, too_long_message, LineRead};
use antiknob::api::types::{led_mode_name, PowerStatus, TapHealth};
use antiknob::device::{primary_transport as device_primary_transport, DeviceMatch};
use antiknob::firmware::TransportType;

fn dev(transport: TransportType, page: u16) -> DeviceMatch {
    DeviceMatch {
        vendor_id: 0x514C,
        product_id: 0x8850,
        name: "VK01".to_string(),
        serial_number: None,
        path: "p".to_string(),
        usage_page: page,
        usage: 1,
        interface_number: 0,
        transport,
    }
}

#[test]
fn power_follows_the_primary_transport() {
    let wired = PowerStatus::current(&vec![dev(TransportType::Usb, 0xFF00)]);
    assert_eq!(wired.source, "usb_bus");
    assert_eq!(wired.description, "Wired (USB Bus Powered)");
    let bt = PowerStatus::current(&vec![dev(TransportType::Bluetooth, 1)]);
    assert_eq!(bt.transport, "bluetooth");
    assert_eq!(bt.source, "battery");
    let none = PowerStatus::current(&vec![]);
    assert_eq!(none.transport, "disconnected");
    assert_eq!(none.description, "Disconnected");
    assert_eq!(none.battery_percent, None);
}

#[test]
fn led_modes_have_this_knobs_names() {
    assert_eq!(led_mode_name(0), "off");
    assert_eq!(led_mode_name(4), "rainbow");
    assert_eq!(led_mode_name(5), "rgb");
    assert_eq!(led_mode_name(6), "unknown");
}

#[test]
fn a_request_line_is_bounded_and_loses_its_line_ending() {
    assert_eq!(bounded_line(vec![], 8), LineRead::Eof);
    assert_eq!(bounded_line(b"ping\r\n".to_vec(), 8), LineRead::Line(b"ping".to_vec()));
    assert_eq!(bounded_line(b"\n".to_vec(), 8), LineRead::Line(vec![]));
    assert_eq!(bounded_line(b"123456789".to_vec(), 8), LineRead::TooLong);
    assert_eq!(too_long_message(8), "Request line exceeds 8 bytes limit");
}

#[test]
fn a_fresh_tap_is_neither_running_nor_failed() {
    let h = TapHealth::default();
    assert!(!h.active);
    assert!(h.error.is_none());
}

#[test]
fn a_request_line_must_be_utf8() {
    assert_eq!(read_bounded_line(vec![], 8), Ok(None));
    assert_eq!(read_bounded_line(b"ping\r\n".to_vec(), 8), Ok(Some("ping".to_string())));
    assert_eq!(read_bounded_line("h\u{e9}\n".as_bytes().to_vec(), 8), Ok(Some("h\u{e9}".to_string())));
    assert_eq!(read_bounded_line(b"123456789".to_vec(), 8), Err("Request line exceeds 8 bytes limit".to_string()));
    let bad = read_bounded_line(vec![0x66, 0xFF, b'\n'], 8).unwrap_err();
    assert_eq!(bad, String::from_utf8(vec![0x66, 0xFF]).unwrap_err().to_string());
    assert_eq!(invalid_request_message(&bad), format!("Invalid Request: {bad}"));
    assert_eq!(INVALID_REQUEST, -32600);
}

#[test]
fn any_wired_interface_means_bus_powered() {
    let mixed = vec![dev(TransportType::Wireless24G, 0xFF00), dev(TransportType::Usb, 1)];
    let p = PowerStatus::current(&mixed);
    assert_eq!((p.source.as_str(), p.transport.as_str()), ("usb_bus", "usb"));
    let reversed = vec![dev(TransportType::Usb, 1), dev(TransportType::Wireless24G, 0xFF00)];
    assert_eq!(PowerStatus::current(&reversed), p);
    assert_eq!(device_primary_transport(&mixed), Some(TransportType::Usb));
    let radio = vec![dev(TransportType::Bluetooth, 0xFF00), dev(TransportType::Wireless24G, 1)];
    assert_eq!(device_primary_transport(&radio), Some(TransportType::Wireless24G));
    assert_eq!(PowerStatus::current(&radio).transport, "wireless_2_4g");
    assert_eq!(device_primary_transport(&vec![]), None);
}

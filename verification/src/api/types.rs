//! Values the command surface answers with: the device's power source, the
//! event tap's health and the names of the backlight modes.

use vstd::prelude::*;
use crate::device::DeviceMatch;
use crate::device::{device_transport, primary_transport};
use crate::firmware::TransportType;

verus! {

/// Device power and battery status.
#[derive(Debug, Clone, PartialEq, Eq)]
pub struct PowerStatus {
    pub source: String,
    pub transport: String,
    pub battery_percent: Option<u8>,
    pub description: String,
}

/// Whether the daemon's event tap is running, and why not when it is not.
#[derive(Debug, Clone, PartialEq, Eq)]
pub struct TapHealth {
    pub active: bool,
    pub error: Option<String>,
}

impl Default for TapHealth {
    /// Not yet running, with no failure recorded.
    fn default() -> (r: Self)
        ensures
            !r.active && r.error.is_none(),
    {
        TapHealth { active: false, error: None }
    }
}

/// Source, transport name and description for the primary transport, or
/// the disconnected report when nothing is attached.
pub open spec fn power_fields(t: Option<TransportType>) -> (Seq<char>, Seq<char>, Seq<char>) {
    match t {
        Some(TransportType::Usb) => ("usb_bus"@, "usb"@, "Wired (USB Bus Powered)"@),
        Some(TransportType::Wireless24G) => ("battery"@, "wireless_2_4g"@, "2.4GHz Wireless (Battery Powered)"@),
        Some(TransportType::Bluetooth) => ("battery"@, "bluetooth"@, "Bluetooth Wireless (Battery Powered)"@),
        None => ("disconnected"@, "disconnected"@, "Disconnected"@),
    }
}

impl PowerStatus {
    fn of(source: &str, transport: &str, description: &str) -> (r: Self)
        ensures
            r.source@ == source@ && r.transport@ == transport@ && r.description@ == description@
                && r.battery_percent.is_none(),
    {
        PowerStatus {
            source: String::from_str(source),
            transport: String::from_str(transport),
            battery_percent: None,
            description: String::from_str(description),
        }
    }

    /// What powers the knob, read off the transport it is attached by. No
    /// transport reports a battery level, so none is given.
    pub fn current(devices: &Vec<DeviceMatch>) -> (r: Self)
        ensures
            (r.source@, r.transport@, r.description@) == power_fields(device_transport(devices@)),
            r.battery_percent.is_none(),
    {
        match primary_transport(devices) {
            Some(TransportType::Usb) => PowerStatus::of("usb_bus", "usb", "Wired (USB Bus Powered)"),
            Some(TransportType::Wireless24G) => PowerStatus::of(
                "battery",
                "wireless_2_4g",
                "2.4GHz Wireless (Battery Powered)",
            ),
            Some(TransportType::Bluetooth) => PowerStatus::of(
                "battery",
                "bluetooth",
                "Bluetooth Wireless (Battery Powered)",
            ),
            None => PowerStatus::of("disconnected", "disconnected", "Disconnected"),
        }
    }
}

/// The name of a backlight mode on this knob: off, red, green, ripple,
/// rainbow, rgb; anything else is unknown.
pub open spec fn led_mode_label(mode: u8) -> Seq<char> {
    if mode == 0 {
        "off"@
    } else if mode == 1 {
        "red"@
    } else if mode == 2 {
        "green"@
    } else if mode == 3 {
        "ripple"@
    } else if mode == 4 {
        "rainbow"@
    } else if mode == 5 {
        "rgb"@
    } else {
        "unknown"@
    }
}

/// Human-readable LED mode name.
pub fn led_mode_name(mode: u8) -> (r: &'static str)
    ensures
        r@ == led_mode_label(mode),
{
    match mode {
        0 => "off",
        1 => "red",
        2 => "green",
        3 => "ripple",
        4 => "rainbow",
        5 => "rgb",
        _ => "unknown",
    }
}

} // verus!

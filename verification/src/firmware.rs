//! The hardware map: the firmware's addresses, command bytes, record
//! geometry and the devices this tool drives, in one place.

use vstd::prelude::*;

verus! {

/// Report ID on every packet this tool sends and every reply it matches.
pub const REPORT_ID: u8 = 0x03;

/// Payload bytes per report.
pub const REPORT_LEN: usize = 64;

/// Usage page of the vendor configuration endpoint.
pub const VENDOR_USAGE_PAGE: u16 = 0xFF00;

/// Gestures per knob: twist-left, press, twist-right, hold+twist left,
/// hold+twist right.
pub const GESTURES_PER_KNOB: usize = 5;

/// Device layers the firmware holds.
pub const DEVICE_LAYERS: u8 = 3;

/// Control + Alt, the modifier pair the slot chords carry.
pub const SLOT_CHORD_MODS: u8 = 0x01 | 0x04;

/// The sequence write command byte.
pub const FD_CMD: u8 = 0xFD;

/// Bytes before the first entry: report, command, key, layer, kind, b5, len.
pub const FD_HEADER_LEN: usize = 7;

/// Delay hi, delay lo, value.
pub const FD_ENTRY_LEN: usize = 3;

/// How many entries fit in one report.
pub const FD_MAX_ENTRIES: usize = (REPORT_LEN - FD_HEADER_LEN) / FD_ENTRY_LEN;

/// The modifier entry for HID modifier bit `n` is `FD_MOD_ENTRY_BASE + n`.
pub const FD_MOD_ENTRY_BASE: u8 = 0xF1;

/// Record kind for keyboard actions.
pub const FD_KIND_KEYBOARD: u8 = 1;

/// Record kind for media actions.
pub const FD_KIND_MEDIA: u8 = 2;

/// Record kind for mouse actions.
pub const FD_KIND_MOUSE: u8 = 3;

/// The chord/mouse write command byte.
pub const FE_CHORD_CMD: u8 = 0xFE;

/// The slot-table query command, and the tag on every vendor reply.
pub const SLOT_TABLE_QUERY_CMD: u8 = 0xFA;

/// The largest key id any supported layout reaches.
pub const SLOT_MAX_KEY_ID: u8 = 40;

/// Slots covered per burst query.
pub const SLOT_BURST_WIDTH: u8 = 25;

/// Burst queries that walk the whole table.
pub const SLOT_BURST_QUERIES: u8 = 3;

/// The bank the per-slot walk reads.
pub const SLOT_DEFAULT_GROUP: u8 = 0x0F;

/// First byte of the commit tail `FD FE FF` that follows key writes.
pub const SLOT_COMMIT_FIRST: u8 = 0xFD;

/// Sub-command of the backlight write and query.
pub const LED_SUB: u8 = 0xB0;

/// The LED mode query command.
pub const LED_QUERY_CMD: u8 = 0xFA;

/// The command byte a vendor query reply carries.
pub const LED_REPLY_TAG: u8 = 0xFA;

/// How many unrelated reports an LED read skips looking for its reply.
pub const LED_MAX_SKIPPED_REPORTS: usize = 8;

/// How long a read waits for one report, in milliseconds.
pub const READ_TIMEOUT_MS: i32 = 500;

/// Gap between consecutive slot-write reports.
pub const SLOT_WRITE_GAP_MS: u64 = 15;

/// Settle after the commit tail.
pub const COMMIT_SETTLE_MS: u64 = 50;

/// Settle between the LED init and its mode packet.
pub const LED_INIT_SETTLE_MS: u64 = 20;

/// How a supported device is attached.
#[derive(Debug, Clone, Copy, PartialEq, Eq, Structural)]
pub enum TransportType {
    Usb,
    Wireless24G,
    Bluetooth,
}

/// The wire name of a transport.
pub open spec fn transport_name(t: TransportType) -> Seq<char> {
    match t {
        TransportType::Usb => "usb"@,
        TransportType::Wireless24G => "wireless_2_4g"@,
        TransportType::Bluetooth => "bluetooth"@,
    }
}

/// How a transport is shown to a person.
pub open spec fn transport_display(t: TransportType) -> Seq<char> {
    match t {
        TransportType::Usb => "USB (Wired)"@,
        TransportType::Wireless24G => "2.4GHz Wireless"@,
        TransportType::Bluetooth => "Bluetooth Wireless"@,
    }
}

impl TransportType {
    pub fn as_str(&self) -> (r: &'static str)
        ensures
            r@ == transport_name(*self),
    {
        match self {
            TransportType::Usb => "usb",
            TransportType::Wireless24G => "wireless_2_4g",
            TransportType::Bluetooth => "bluetooth",
        }
    }

    pub fn display_name(&self) -> (r: &'static str)
        ensures
            r@ == transport_display(*self),
    {
        match self {
            TransportType::Usb => "USB (Wired)",
            TransportType::Wireless24G => "2.4GHz Wireless",
            TransportType::Bluetooth => "Bluetooth Wireless",
        }
    }
}

/// The supported-device table: the product name and table transport of a
/// listed `VID:PID`, or `None` for a device this tool does not drive.
pub open spec fn listed_device(vid: u16, pid: u16) -> Option<(Seq<char>, TransportType)> {
    if vid == 0x514C && pid == 0x8850 {
        Some(("Anticater / LQKJ VK01 (0x514c:0x8850)"@, TransportType::Usb))
    } else if vid == 0x514C && pid == 0x8851 {
        Some(("Anticater / LQKJ 2.4G (0x514c:0x8851)"@, TransportType::Wireless24G))
    } else if vid == 0x514C && pid == 0x4155 {
        Some(("Anticater / LiQi (0x514c:0x4155)"@, TransportType::Usb))
    } else if vid == 0x1189 && pid == 0x8840 {
        Some(("Anticater / CH57x (0x1189:0x8840)"@, TransportType::Usb))
    } else if vid == 0x1189 && pid == 0x8842 {
        Some(("Anticater / CH57x (0x1189:0x8842)"@, TransportType::Usb))
    } else if vid == 0x1189 && pid == 0x8850 {
        Some(("Anticater / CH57x (0x1189:0x8850)"@, TransportType::Usb))
    } else if vid == 0x1189 && pid == 0x8851 {
        Some(("Anticater / CH57x 2.4G (0x1189:0x8851)"@, TransportType::Wireless24G))
    } else if vid == 0x1189 && pid == 0x8890 {
        Some(("Anticater / CH57x (0x1189:0x8890)"@, TransportType::Usb))
    } else if vid == 0x1189 && pid == 0x8830 {
        Some(("Anticater / CH57x 2.4G (0x1189:0x8830)"@, TransportType::Wireless24G))
    } else if vid == 0x1189 && pid == 0x8831 {
        Some(("Anticater / CH57x 2.4G (0x1189:0x8831)"@, TransportType::Wireless24G))
    } else if vid == 0x1189 && pid == 0x8832 {
        Some(("Anticater / CH57x 2.4G (0x1189:0x8832)"@, TransportType::Wireless24G))
    } else if vid == 0x1189 && pid == 0x8833 {
        Some(("Anticater / CH57x 2.4G (0x1189:0x8833)"@, TransportType::Wireless24G))
    } else if vid == 0x514C && pid == 0x8830 {
        Some(("Anticater / LQKJ 2.4G (0x514c:0x8830)"@, TransportType::Wireless24G))
    } else if vid == 0x514C && pid == 0x8831 {
        Some(("Anticater / LQKJ 2.4G (0x514c:0x8831)"@, TransportType::Wireless24G))
    } else if vid == 0x514C && pid == 0x8832 {
        Some(("Anticater / LQKJ 2.4G (0x514c:0x8832)"@, TransportType::Wireless24G))
    } else if vid == 0x514C && pid == 0x8833 {
        Some(("Anticater / LQKJ 2.4G (0x514c:0x8833)"@, TransportType::Wireless24G))
    } else if vid == 0x25A7 && pid == 0xFA11 {
        Some(("Anticater 2.4G Receiver (0x25a7:0xfa11)"@, TransportType::Wireless24G))
    } else {
        None
    }
}

/// Looks a `VID:PID` up in the supported-device table.
pub fn supported_device(vid: u16, pid: u16) -> (r: Option<(&'static str, TransportType)>)
    ensures
        match (r, listed_device(vid, pid)) {
            (Some((name, t)), Some((want, wt))) => name@ == want && t == wt,
            (None, None) => true,
            _ => false,
        },
{
    if vid == 0x514C && pid == 0x8850 {
        Some(("Anticater / LQKJ VK01 (0x514c:0x8850)", TransportType::Usb))
    } else if vid == 0x514C && pid == 0x8851 {
        Some(("Anticater / LQKJ 2.4G (0x514c:0x8851)", TransportType::Wireless24G))
    } else if vid == 0x514C && pid == 0x4155 {
        Some(("Anticater / LiQi (0x514c:0x4155)", TransportType::Usb))
    } else if vid == 0x1189 && pid == 0x8840 {
        Some(("Anticater / CH57x (0x1189:0x8840)", TransportType::Usb))
    } else if vid == 0x1189 && pid == 0x8842 {
        Some(("Anticater / CH57x (0x1189:0x8842)", TransportType::Usb))
    } else if vid == 0x1189 && pid == 0x8850 {
        Some(("Anticater / CH57x (0x1189:0x8850)", TransportType::Usb))
    } else if vid == 0x1189 && pid == 0x8851 {
        Some(("Anticater / CH57x 2.4G (0x1189:0x8851)", TransportType::Wireless24G))
    } else if vid == 0x1189 && pid == 0x8890 {
        Some(("Anticater / CH57x (0x1189:0x8890)", TransportType::Usb))
    } else if vid == 0x1189 && pid == 0x8830 {
        Some(("Anticater / CH57x 2.4G (0x1189:0x8830)", TransportType::Wireless24G))
    } else if vid == 0x1189 && pid == 0x8831 {
        Some(("Anticater / CH57x 2.4G (0x1189:0x8831)", TransportType::Wireless24G))
    } else if vid == 0x1189 && pid == 0x8832 {
        Some(("Anticater / CH57x 2.4G (0x1189:0x8832)", TransportType::Wireless24G))
    } else if vid == 0x1189 && pid == 0x8833 {
        Some(("Anticater / CH57x 2.4G (0x1189:0x8833)", TransportType::Wireless24G))
    } else if vid == 0x514C && pid == 0x8830 {
        Some(("Anticater / LQKJ 2.4G (0x514c:0x8830)", TransportType::Wireless24G))
    } else if vid == 0x514C && pid == 0x8831 {
        Some(("Anticater / LQKJ 2.4G (0x514c:0x8831)", TransportType::Wireless24G))
    } else if vid == 0x514C && pid == 0x8832 {
        Some(("Anticater / LQKJ 2.4G (0x514c:0x8832)", TransportType::Wireless24G))
    } else if vid == 0x514C && pid == 0x8833 {
        Some(("Anticater / LQKJ 2.4G (0x514c:0x8833)", TransportType::Wireless24G))
    } else if vid == 0x25A7 && pid == 0xFA11 {
        Some(("Anticater 2.4G Receiver (0x25a7:0xfa11)", TransportType::Wireless24G))
    } else {
        None
    }
}

/// Whether a `VID:PID` is in the supported-device table.
pub fn is_supported(vid: u16, pid: u16) -> (r: bool)
    ensures
        r == listed_device(vid, pid).is_some(),
{
    supported_device(vid, pid).is_some()
}

/// The record geometry adds up: header plus every entry fills one report.
pub proof fn lemma_fd_geometry()
    ensures
        FD_MAX_ENTRIES == 19,
        FD_HEADER_LEN + FD_MAX_ENTRIES * FD_ENTRY_LEN == REPORT_LEN,
{
}


/// Every knob this tool drives is recognised, with its name and the
/// transport it is attached by: the wired VK01 and its 2.4 GHz variants,
/// the LiQi, the CH57x family (0x8842 among the tested ones) and the
/// receiver.
pub proof fn lemma_supported_devices()
    ensures
        listed_device(0x514C, 0x8850) == Some::<(Seq<char>, TransportType)>(("Anticater / LQKJ VK01 (0x514c:0x8850)"@, TransportType::Usb)),
        listed_device(0x514C, 0x8851) == Some::<(Seq<char>, TransportType)>(("Anticater / LQKJ 2.4G (0x514c:0x8851)"@, TransportType::Wireless24G)),
        listed_device(0x514C, 0x4155) == Some::<(Seq<char>, TransportType)>(("Anticater / LiQi (0x514c:0x4155)"@, TransportType::Usb)),
        listed_device(0x1189, 0x8840) == Some::<(Seq<char>, TransportType)>(("Anticater / CH57x (0x1189:0x8840)"@, TransportType::Usb)),
        listed_device(0x1189, 0x8842) == Some::<(Seq<char>, TransportType)>(("Anticater / CH57x (0x1189:0x8842)"@, TransportType::Usb)),
        listed_device(0x1189, 0x8850) == Some::<(Seq<char>, TransportType)>(("Anticater / CH57x (0x1189:0x8850)"@, TransportType::Usb)),
        listed_device(0x1189, 0x8851) == Some::<(Seq<char>, TransportType)>(("Anticater / CH57x 2.4G (0x1189:0x8851)"@, TransportType::Wireless24G)),
        listed_device(0x1189, 0x8890) == Some::<(Seq<char>, TransportType)>(("Anticater / CH57x (0x1189:0x8890)"@, TransportType::Usb)),
        listed_device(0x1189, 0x8830) == Some::<(Seq<char>, TransportType)>(("Anticater / CH57x 2.4G (0x1189:0x8830)"@, TransportType::Wireless24G)),
        listed_device(0x1189, 0x8831) == Some::<(Seq<char>, TransportType)>(("Anticater / CH57x 2.4G (0x1189:0x8831)"@, TransportType::Wireless24G)),
        listed_device(0x1189, 0x8832) == Some::<(Seq<char>, TransportType)>(("Anticater / CH57x 2.4G (0x1189:0x8832)"@, TransportType::Wireless24G)),
        listed_device(0x1189, 0x8833) == Some::<(Seq<char>, TransportType)>(("Anticater / CH57x 2.4G (0x1189:0x8833)"@, TransportType::Wireless24G)),
        listed_device(0x514C, 0x8830) == Some::<(Seq<char>, TransportType)>(("Anticater / LQKJ 2.4G (0x514c:0x8830)"@, TransportType::Wireless24G)),
        listed_device(0x514C, 0x8831) == Some::<(Seq<char>, TransportType)>(("Anticater / LQKJ 2.4G (0x514c:0x8831)"@, TransportType::Wireless24G)),
        listed_device(0x514C, 0x8832) == Some::<(Seq<char>, TransportType)>(("Anticater / LQKJ 2.4G (0x514c:0x8832)"@, TransportType::Wireless24G)),
        listed_device(0x514C, 0x8833) == Some::<(Seq<char>, TransportType)>(("Anticater / LQKJ 2.4G (0x514c:0x8833)"@, TransportType::Wireless24G)),
        listed_device(0x25A7, 0xFA11) == Some::<(Seq<char>, TransportType)>(("Anticater 2.4G Receiver (0x25a7:0xfa11)"@, TransportType::Wireless24G)),
{
}

/// Only the three vendors of the table are ever recognised.
pub proof fn lemma_only_known_vendors(vid: u16, pid: u16)
    requires
        vid != 0x514C && vid != 0x1189 && vid != 0x25A7,
    ensures
        listed_device(vid, pid) is None,
{
}

} // verus!

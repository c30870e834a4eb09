//! Everything the tool knows about the devices it drives: which attached
//! interface is ours and over which transport, the reports it exchanges,
//! and how a read-back is checked against what was written.

use vstd::prelude::*;
use crate::firmware::TransportType;

pub mod classify;
pub mod led_state;
pub mod mode;
pub mod reports;
pub mod select;
pub mod snoop;
pub mod verify;

verus! {

/// One attached HID interface of a supported device.
#[derive(Debug, Clone, PartialEq, Eq)]
pub struct DeviceMatch {
    pub vendor_id: u16,
    pub product_id: u16,
    pub name: String,
    pub serial_number: Option<String>,
    pub path: String,
    pub usage_page: u16,
    pub usage: u16,
    /// USB interface number (-1 when the backend does not report one).
    pub interface_number: i32,
    pub transport: TransportType,
}

/// The interface number a device reports when the backend has none.
pub fn default_iface_no() -> (r: i32)
    ensures
        r == -1,
{
    -1
}

/// The transport assumed when a status record does not name one.
pub fn default_transport() -> (r: TransportType)
    ensures
        r == TransportType::Usb,
{
    TransportType::Usb
}


/// Some interface of `ms` is on transport `t`.
pub open spec fn any_on(ms: Seq<DeviceMatch>, t: TransportType) -> bool {
    exists|i: int| 0 <= i < ms.len() && (#[trigger] ms[i]).transport == t
}

/// The transport the device as a whole is reported on: wired when any of
/// its interfaces is, else 2.4 GHz when any is, else Bluetooth; nothing
/// when no interface is attached. The order of the interfaces does not
/// matter.
pub open spec fn device_transport(ms: Seq<DeviceMatch>) -> Option<TransportType> {
    if ms.len() == 0 {
        None
    } else if any_on(ms, TransportType::Usb) {
        Some(TransportType::Usb)
    } else if any_on(ms, TransportType::Wireless24G) {
        Some(TransportType::Wireless24G)
    } else if any_on(ms, TransportType::Bluetooth) {
        Some(TransportType::Bluetooth)
    } else {
        Some(TransportType::Usb)
    }
}

fn any_on_exec(matches: &Vec<DeviceMatch>, t: TransportType) -> (r: bool)
    ensures
        r == any_on(matches@, t),
{
    let mut i: usize = 0;
    while i < matches.len()
        invariant
            i <= matches@.len(),
            forall|k: int| 0 <= k < i ==> matches@[k].transport != t,
        decreases matches.len() - i,
    {
        if matches[i].transport == t {
            return true;
        }
        i = i + 1;
    }
    false
}

/// The transport status and power report for the attached interfaces.
pub fn primary_transport(matches: &Vec<DeviceMatch>) -> (r: Option<TransportType>)
    ensures
        r == device_transport(matches@),
{
    if matches.len() == 0 {
        None
    } else if any_on_exec(matches, TransportType::Usb) {
        Some(TransportType::Usb)
    } else if any_on_exec(matches, TransportType::Wireless24G) {
        Some(TransportType::Wireless24G)
    } else if any_on_exec(matches, TransportType::Bluetooth) {
        Some(TransportType::Bluetooth)
    } else {
        Some(TransportType::Usb)
    }
}

/// The reported transport does not depend on the order in which the
/// interfaces were enumerated.
pub proof fn lemma_transport_ignores_order(a: Seq<DeviceMatch>, b: Seq<DeviceMatch>)
    requires
        a.to_multiset() == b.to_multiset(),
    ensures
        device_transport(a) == device_transport(b),
{
    broadcast use vstd::seq_lib::group_to_multiset_ensures;
    assert forall|t: TransportType| any_on(a, t) == any_on(b, t) by {
        if any_on(a, t) {
            let i = choose|i: int| 0 <= i < a.len() && (#[trigger] a[i]).transport == t;
            assert(a.contains(a[i]));
            vstd::seq_lib::to_multiset_contains(a, a[i]);
            vstd::seq_lib::to_multiset_contains(b, a[i]);
            assert(b.contains(a[i]));
            let j = choose|j: int| 0 <= j < b.len() && b[j] == a[i];
            assert(b[j].transport == t);
        }
        if any_on(b, t) {
            let i = choose|i: int| 0 <= i < b.len() && (#[trigger] b[i]).transport == t;
            assert(b.contains(b[i]));
            vstd::seq_lib::to_multiset_contains(b, b[i]);
            vstd::seq_lib::to_multiset_contains(a, b[i]);
            assert(a.contains(b[i]));
            let j = choose|j: int| 0 <= j < a.len() && a[j] == b[i];
            assert(a[j].transport == t);
        }
    }
    vstd::seq_lib::to_multiset_len(a);
    vstd::seq_lib::to_multiset_len(b);
    assert(any_on(a, TransportType::Usb) == any_on(b, TransportType::Usb));
    assert(any_on(a, TransportType::Wireless24G) == any_on(b, TransportType::Wireless24G));
    assert(any_on(a, TransportType::Bluetooth) == any_on(b, TransportType::Bluetooth));
}

} // verus!

//! Is this HID device ours, and over which transport?
//!
//! A pure decision, so the Bluetooth branches, which no hardware on hand
//! can reach, are pinned all the same. The bus is ground truth for the
//! transport; a product name can make a device ours but never says how it
//! is attached.

use vstd::prelude::*;
use crate::firmware::{TransportType, listed_device, supported_device, transport_display};
use crate::text::{chars_of, contains, contains_run, lowercase, push_str, to_lowercase};

verus! {

/// Whether a lower-case product string names an Anticater knob.
pub open spec fn names_anticater_spec(p: Seq<char>) -> bool {
    contains_run(p, "anticater"@) || contains_run(p, "vk01"@) || contains_run(p, "vk-01"@)
}

/// Whether a product string names an Anticater knob, ignoring case.
pub open spec fn looks_like_anticater_spec(product: Seq<char>) -> bool {
    names_anticater_spec(lowercase(product))
}

/// The transport a device on this bus is on when the table does not say.
pub open spec fn bus_transport(bluetooth_bus: bool) -> TransportType {
    if bluetooth_bus {
        TransportType::Bluetooth
    } else {
        TransportType::Usb
    }
}

/// Whether a HID device is ours, with the name to show and its transport.
pub open spec fn classification(vid: u16, pid: u16, bluetooth_bus: bool, product: Seq<char>) -> Option<(Seq<char>, TransportType)> {
    match listed_device(vid, pid) {
        Some((name, t)) => Some((name, if bluetooth_bus { TransportType::Bluetooth } else { t })),
        None => if looks_like_anticater_spec(product) {
            let t = bus_transport(bluetooth_bus);
            if product.len() == 0 {
                Some(("Anticater ("@ + transport_display(t) + ")"@, t))
            } else {
                Some(("Anticater ("@ + product + ")"@, t))
            }
        } else {
            None
        },
    }
}

/// Does this product string look like an Anticater knob?
fn looks_like_anticater(product: &str) -> (r: bool)
    ensures
        r == looks_like_anticater_spec(product@),
{
    let lower = to_lowercase(product);
    names_anticater(lower.as_str())
}

/// Whether a product string already in lower case names an Anticater knob:
/// it mentions `anticater`, `vk01` or `vk-01`.
pub fn names_anticater(lowered: &str) -> (r: bool)
    ensures
        r == names_anticater_spec(lowered@),
{
    let p = chars_of(lowered);
    contains(&p, &chars_of("anticater")) || contains(&p, &chars_of("vk01")) || contains(&p, &chars_of("vk-01"))
}

/// Decide whether a HID device is ours, and over which transport.
pub fn classify_device(vid: u16, pid: u16, bluetooth_bus: bool, product: &str) -> (r: Option<(String, TransportType)>)
    ensures
        match (r, classification(vid, pid, bluetooth_bus, product@)) {
            (None, None) => true,
            (Some((name, t)), Some((wn, wt))) => name@ == wn && t == wt,
            _ => false,
        },
{
    if let Some((name, transport)) = supported_device(vid, pid) {
        let actual = if bluetooth_bus {
            TransportType::Bluetooth
        } else {
            transport
        };
        let mut s = String::new();
        push_str(&mut s, name);
        return Some((s, actual));
    }
    if looks_like_anticater(product) {
        let transport = if bluetooth_bus {
            TransportType::Bluetooth
        } else {
            TransportType::Usb
        };
        let mut s = String::new();
        push_str(&mut s, "Anticater (");
        if product.unicode_len() == 0 {
            push_str(&mut s, transport.display_name());
        } else {
            push_str(&mut s, product);
        }
        push_str(&mut s, ")");
        return Some((s, transport));
    }
    None
}

/// The bus is ground truth for the transport: a device we claim is on
/// Bluetooth exactly when it sits on a Bluetooth bus, whatever the table
/// lists and whatever its name says.
pub proof fn lemma_bus_is_ground_truth(vid: u16, pid: u16, bluetooth_bus: bool, product: Seq<char>)
    ensures
        classification(vid, pid, bluetooth_bus, product) matches Some((_, t)) ==> (t == TransportType::Bluetooth
            <==> bluetooth_bus),
{
}

} // verus!

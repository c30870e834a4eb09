//! Which device, and which transport, out of everything attached.
//!
//! A knob publishes several HID interfaces; only the vendor endpoint on
//! usage page `0xFF00` accepts commands. Without one, a wireless link is
//! preferred over an arbitrary first interface, so status reflects the
//! knob that is actually in use.

use vstd::prelude::*;
use crate::device::DeviceMatch;
use crate::firmware::{TransportType, VENDOR_USAGE_PAGE};

verus! {

/// The first interface on the vendor usage page.
pub open spec fn first_vendor(ms: Seq<DeviceMatch>) -> Option<int>
    decreases ms.len(),
{
    if ms.len() == 0 {
        None
    } else if ms[0].usage_page == VENDOR_USAGE_PAGE {
        Some(0)
    } else {
        match first_vendor(ms.drop_first()) {
            Some(i) => Some(i + 1),
            None => None,
        }
    }
}

/// The first interface on a transport.
pub open spec fn first_on(ms: Seq<DeviceMatch>, t: TransportType) -> Option<int>
    decreases ms.len(),
{
    if ms.len() == 0 {
        None
    } else if ms[0].transport == t {
        Some(0)
    } else {
        match first_on(ms.drop_first(), t) {
            Some(i) => Some(i + 1),
            None => None,
        }
    }
}

/// The interface every device command drives: the vendor endpoint, else
/// the first 2.4GHz interface, else the first Bluetooth one, else the first.
pub open spec fn primary_index(ms: Seq<DeviceMatch>) -> Option<int> {
    if first_vendor(ms).is_some() {
        first_vendor(ms)
    } else if first_on(ms, TransportType::Wireless24G).is_some() {
        first_on(ms, TransportType::Wireless24G)
    } else if first_on(ms, TransportType::Bluetooth).is_some() {
        first_on(ms, TransportType::Bluetooth)
    } else if ms.len() > 0 {
        Some(0)
    } else {
        None
    }
}

proof fn lemma_first_vendor(ms: Seq<DeviceMatch>)
    ensures
        first_vendor(ms) matches Some(i) ==> 0 <= i < ms.len() && ms[i].usage_page == VENDOR_USAGE_PAGE
            && forall|k: int| 0 <= k < i ==> #[trigger] ms[k].usage_page != VENDOR_USAGE_PAGE,
        first_vendor(ms) is None ==> forall|k: int| 0 <= k < ms.len() ==> #[trigger] ms[k].usage_page != VENDOR_USAGE_PAGE,
    decreases ms.len(),
{
    if ms.len() > 0 {
        lemma_first_vendor(ms.drop_first());
        assert forall|k: int| 0 < k < ms.len() implies ms[k] == ms.drop_first()[k - 1] by {}
    }
}

proof fn lemma_first_on(ms: Seq<DeviceMatch>, t: TransportType)
    ensures
        first_on(ms, t) matches Some(i) ==> 0 <= i < ms.len() && ms[i].transport == t
            && forall|k: int| 0 <= k < i ==> #[trigger] ms[k].transport != t,
        first_on(ms, t) is None ==> forall|k: int| 0 <= k < ms.len() ==> #[trigger] ms[k].transport != t,
    decreases ms.len(),
{
    if ms.len() > 0 {
        lemma_first_on(ms.drop_first(), t);
        assert forall|k: int| 0 < k < ms.len() implies ms[k] == ms.drop_first()[k - 1] by {}
    }
}

fn find_vendor(ms: &Vec<DeviceMatch>) -> (r: Option<usize>)
    ensures
        r matches Some(j) ==> first_vendor(ms@) == Some(j as int),
        r is None ==> first_vendor(ms@) is None,
{
    proof {
        lemma_first_vendor(ms@);
    }
    let mut i: usize = 0;
    while i < ms.len()
        invariant
            i <= ms.len(),
            forall|k: int| 0 <= k < i ==> #[trigger] ms@[k].usage_page != VENDOR_USAGE_PAGE,
        decreases ms.len() - i,
    {
        if ms[i].usage_page == VENDOR_USAGE_PAGE {
            proof {
                lemma_first_vendor(ms@);
            }
            return Some(i);
        }
        i = i + 1;
    }
    None
}

fn find_on(ms: &Vec<DeviceMatch>, t: TransportType) -> (r: Option<usize>)
    ensures
        r matches Some(j) ==> first_on(ms@, t) == Some(j as int),
        r is None ==> first_on(ms@, t) is None,
{
    proof {
        lemma_first_on(ms@, t);
    }
    let mut i: usize = 0;
    while i < ms.len()
        invariant
            i <= ms.len(),
            forall|k: int| 0 <= k < i ==> #[trigger] ms@[k].transport != t,
        decreases ms.len() - i,
    {
        if ms[i].transport == t {
            proof {
                lemma_first_on(ms@, t);
            }
            return Some(i);
        }
        i = i + 1;
    }
    None
}

/// Index of the interface every device command actually drives.
pub fn primary_device_index(matches: &Vec<DeviceMatch>) -> (r: Option<usize>)
    ensures
        r matches Some(j) ==> primary_index(matches@) == Some(j as int) && j < matches.len(),
        r is None ==> primary_index(matches@) is None,
{
    proof {
        lemma_first_vendor(matches@);
        lemma_first_on(matches@, TransportType::Wireless24G);
        lemma_first_on(matches@, TransportType::Bluetooth);
    }
    if let Some(i) = find_vendor(matches) {
        return Some(i);
    }
    if let Some(i) = find_on(matches, TransportType::Wireless24G) {
        return Some(i);
    }
    if let Some(i) = find_on(matches, TransportType::Bluetooth) {
        return Some(i);
    }
    if matches.len() > 0 {
        Some(0)
    } else {
        None
    }
}

/// The interface every device command actually drives.
pub fn primary_device(matches: &Vec<DeviceMatch>) -> (r: Option<&DeviceMatch>)
    ensures
        match primary_index(matches@) {
            Some(i) => r matches Some(d) && *d == matches@[i],
            None => r.is_none(),
        },
{
    match primary_device_index(matches) {
        Some(i) => {
            Some(&matches[i])
        },
        None => None,
    }
}

/// The transport of the primary interface.
pub open spec fn primary_transport_of(ms: Seq<DeviceMatch>) -> Option<TransportType> {
    match primary_index(ms) {
        Some(i) => Some(ms[i].transport),
        None => None,
    }
}

pub fn primary_transport(matches: &Vec<DeviceMatch>) -> (r: Option<TransportType>)
    ensures
        r == primary_transport_of(matches@),
{
    match primary_device(matches) {
        Some(d) => Some(d.transport),
        None => None,
    }
}

} // verus!

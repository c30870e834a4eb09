//! The reports this tool puts on the wire and the decisions taken while
//! reading the device's answers.
//!
//! The transfers themselves are the caller's: what goes out is built here,
//! and what comes back is handed here one report at a time.

use vstd::prelude::*;
use crate::firmware::{REPORT_ID, REPORT_LEN, SLOT_TABLE_QUERY_CMD, SLOT_BURST_WIDTH, LED_QUERY_CMD,
    LED_SUB, SLOT_COMMIT_FIRST, LED_MAX_SKIPPED_REPORTS, VENDOR_USAGE_PAGE, listed_device, is_supported};
use crate::device::DeviceMatch;
use crate::device::classify::{classification, classify_device};
use crate::device::led_state::{LedReply, led_reply, led_reply_of};
use crate::text::{hex, prefixed_hex, push_hex, push_prefixed_hex, push_str, push_decimal, decimal};

verus! {

/// `n` zero bytes.
pub open spec fn zeros(n: nat) -> Seq<u8> {
    Seq::new(n, |i: int| 0u8)
}

/// A report on the wire: the report ID, then the payload (an ID already in
/// front is dropped rather than doubled), cut to 64 bytes and zero-filled.
pub open spec fn framed(payload: Seq<u8>) -> Seq<u8> {
    let p = if payload.len() > 0 && payload[0] == REPORT_ID { payload.drop_first() } else { payload };
    let n: nat = if p.len() < 64 { p.len() } else { 64 };
    seq![REPORT_ID] + p.take(n as int) + zeros((64 - n) as nat)
}

fn zeroed(n: usize) -> (r: Vec<u8>)
    ensures
        r@ == zeros(n as nat),
{
    let mut v: Vec<u8> = Vec::new();
    let mut i: usize = 0;
    while i < n
        invariant
            i <= n,
            v@ == zeros(i as nat),
        decreases n - i,
    {
        v.push(0u8);
        assert(v@ =~= zeros((i + 1) as nat));
        i = i + 1;
    }
    v
}

/// The 65 bytes a payload is written as, command byte at wire byte 1.
pub fn frame_report(payload: &[u8]) -> (r: Vec<u8>)
    ensures
        r@ == framed(payload@),
        r@.len() == REPORT_LEN + 1,
{
    let start: usize = if payload.len() > 0 && payload[0] == REPORT_ID { 1 } else { 0 };
    let avail: usize = payload.len() - start;
    let n: usize = if avail < 64 { avail } else { 64 };
    let ghost p = if payload@.len() > 0 && payload@[0] == REPORT_ID { payload@.drop_first() } else { payload@ };
    assert(p =~= payload@.skip(start as int));
    let mut out: Vec<u8> = Vec::new();
    out.push(REPORT_ID);
    let mut i: usize = 0;
    while i < n
        invariant
            i <= n,
            n <= 64,
            start + n <= payload.len(),
            p == payload@.skip(start as int),
            out@ == seq![REPORT_ID] + p.take(i as int),
        decreases n - i,
    {
        out.push(payload[start + i]);
        assert(p.take(i + 1) =~= p.take(i as int).push(p[i as int]));
        assert(seq![REPORT_ID] + p.take(i + 1) =~= (seq![REPORT_ID] + p.take(i as int)).push(p[i as int]));
        i = i + 1;
    }
    let mut j: usize = n;
    while j < 64
        invariant
            n <= j <= 64,
            out@ == seq![REPORT_ID] + p.take(n as int) + zeros((j - n) as nat),
        decreases 64 - j,
    {
        out.push(0u8);
        assert(seq![REPORT_ID] + p.take(n as int) + zeros((j + 1 - n) as nat)
            =~= (seq![REPORT_ID] + p.take(n as int) + zeros((j - n) as nat)).push(0u8));
        j = j + 1;
    }
    out
}

/// A 64-byte query: four leading bytes, the rest zero.
pub open spec fn query(a: u8, b: u8, c: u8, d: u8) -> Seq<u8> {
    seq![a, b, c, d] + zeros(60)
}

fn query_payload(a: u8, b: u8, c: u8, d: u8) -> (r: Vec<u8>)
    ensures
        r@ == query(a, b, c, d),
        r@.len() == REPORT_LEN,
{
    let mut v = zeroed(64);
    v.set(0, a);
    v.set(1, b);
    v.set(2, c);
    v.set(3, d);
    assert(v@ =~= query(a, b, c, d));
    v
}

/// The slot-table read `FA group 00 counter`. Read-only: it changes no
/// device state. `group` selects the bank, `counter` walks its entries.
pub fn slot_query(group: u8, counter: u8) -> (r: Vec<u8>)
    ensures
        r@ == query(SLOT_TABLE_QUERY_CMD, group, 0, counter),
{
    query_payload(SLOT_TABLE_QUERY_CMD, group, 0, counter)
}

/// One burst query of the whole-table read: `FA 19 00 n` answers with up
/// to 25 records.
pub fn burst_query(counter: u8) -> (r: Vec<u8>)
    ensures
        r@ == query(SLOT_TABLE_QUERY_CMD, SLOT_BURST_WIDTH, 0, counter),
{
    query_payload(SLOT_TABLE_QUERY_CMD, SLOT_BURST_WIDTH, 0, counter)
}

/// The LED state read `FA B0 layer`. Read-only.
pub fn led_query(layer: u8) -> (r: Vec<u8>)
    ensures
        r@ == query(LED_QUERY_CMD, LED_SUB, layer, 0),
{
    query_payload(LED_QUERY_CMD, LED_SUB, layer, 0)
}

/// The commit tail `FD FE FF` that follows a batch of key writes.
pub fn commit_payload() -> (r: Vec<u8>)
    ensures
        r@ == query(SLOT_COMMIT_FIRST, 0xFE, 0xFF, 0),
{
    query_payload(SLOT_COMMIT_FIRST, 0xFE, 0xFF, 0)
}

/// Where an LED read stands after one more report.
#[derive(Debug, Clone, Copy, PartialEq, Eq, Structural)]
pub enum LedRead {
    /// Not the reply; this many reports skipped so far. Read again.
    Waiting(usize),
    /// The reply, with the layer's mode.
    Found(u8),
    /// A report too short to be anything: the read fails.
    Short(usize),
    /// Every report allowed was skipped without a reply: the read fails.
    Exhausted,
}

/// The next state of an LED read that has skipped `skipped` reports and
/// now reads `report`.
pub open spec fn led_read_next(skipped: nat, report: Seq<u8>) -> LedRead {
    match led_reply_of(report) {
        LedReply::Mode(m) => LedRead::Found(m),
        LedReply::Short(n) => LedRead::Short(n),
        LedReply::Other => if skipped + 1 < LED_MAX_SKIPPED_REPORTS {
            LedRead::Waiting((skipped + 1) as usize)
        } else {
            LedRead::Exhausted
        },
    }
}

/// One step of the LED read: the reply is matched, not merely awaited, so
/// the init echo that arrives first is skipped.
pub fn led_read_step(skipped: usize, report: &Vec<u8>) -> (r: LedRead)
    requires
        skipped < LED_MAX_SKIPPED_REPORTS,
    ensures
        r == led_read_next(skipped as nat, report@),
{
    match led_reply(report) {
        LedReply::Mode(m) => LedRead::Found(m),
        LedReply::Short(n) => LedRead::Short(n),
        LedReply::Other => if skipped + 1 < LED_MAX_SKIPPED_REPORTS {
            LedRead::Waiting(skipped + 1)
        } else {
            LedRead::Exhausted
        },
    }
}

pub open spec fn led_read_message(r: LedRead) -> Seq<char> {
    match r {
        LedRead::Short(n) => "Short LED reply ("@ + decimal(n as nat) + " bytes)"@,
        LedRead::Exhausted => "No LED reply from the device after "@ + decimal(LED_MAX_SKIPPED_REPORTS as nat)
            + " report(s)"@,
        _ => Seq::empty(),
    }
}

impl LedRead {
    /// Why a finished read failed; empty for a read that did not.
    pub fn message(&self) -> (r: String)
        ensures
            r@ == led_read_message(*self),
    {
        let mut s = String::new();
        match self {
            LedRead::Short(n) => {
                push_str(&mut s, "Short LED reply (");
                push_decimal(&mut s, *n as u128);
                push_str(&mut s, " bytes)");
            },
            LedRead::Exhausted => {
                push_str(&mut s, "No LED reply from the device after ");
                push_decimal(&mut s, LED_MAX_SKIPPED_REPORTS as u128);
                push_str(&mut s, " report(s)");
            },
            _ => {},
        }
        assert(s@ =~= led_read_message(*self));
        s
    }
}

/// The address `(key, layer)` a slot record carries in bytes 2 and 3.
pub open spec fn record_addr(r: Seq<u8>) -> (u8, u8) {
    (r[2], r[3])
}

/// Whether one of `records` carries the address.
pub open spec fn holds_addr(records: Seq<Seq<u8>>, addr: (u8, u8)) -> bool {
    exists|i: int| 0 <= i < records.len() && record_addr(#[trigger] records[i]) == addr
}

/// The whole-table read: records longer than three bytes, the first seen
/// at each address kept, since the bursts overlap.
pub open spec fn first_per_address(records: Seq<Seq<u8>>) -> Seq<Seq<u8>>
    decreases records.len(),
{
    if records.len() == 0 {
        Seq::empty()
    } else {
        let kept = first_per_address(records.drop_last());
        let r = records.last();
        if r.len() > 3 && !holds_addr(kept, record_addr(r)) {
            kept.push(r)
        } else {
            kept
        }
    }
}

/// The slot table as it is read off the device, burst by burst.
pub struct SlotTable {
    records: Vec<Vec<u8>>,
    seen: Vec<(u8, u8)>,
}

impl SlotTable {
    /// The records kept so far.
    pub closed spec fn view(&self) -> Seq<Seq<u8>> {
        self.records@.map_values(|v: Vec<u8>| v@)
    }

    pub closed spec fn wf(&self) -> bool {
        &&& self.seen@.len() == self.records@.len()
        &&& forall|i: int| 0 <= i < self.seen@.len() ==> #[trigger] self.seen@[i] == record_addr(self.records@[i]@)
        &&& forall|i: int| 0 <= i < self.records@.len() ==> (#[trigger] self.records@[i]@).len() > 3
    }

    pub fn new() -> (t: SlotTable)
        ensures
            t.wf(),
            t.view() == Seq::<Seq<u8>>::empty(),
    {
        let t = SlotTable { records: Vec::new(), seen: Vec::new() };
        assert(t.view() =~= Seq::<Seq<u8>>::empty());
        t
    }

    /// Take one record of a burst. It is kept when it is longer than three
    /// bytes and its address is new; the result says whether it was.
    pub fn absorb(&mut self, record: Vec<u8>) -> (kept: bool)
        requires
            old(self).wf(),
        ensures
            final(self).wf(),
            kept == (record@.len() > 3 && !holds_addr(old(self).view(), record_addr(record@))),
            final(self).view() == if kept { old(self).view().push(record@) } else { old(self).view() },
    {
        let ghost before = self.view();
        if record.len() <= 3 {
            return false;
        }
        let addr = (record[2], record[3]);
        let mut i: usize = 0;
        while i < self.seen.len()
            invariant
                self.wf(),
                self.view() == before,
                i <= self.seen.len(),
                addr == record_addr(record@),
                forall|j: int| 0 <= j < i ==> self.seen@[j] != addr,
            decreases self.seen.len() - i,
        {
            let (k, l) = self.seen[i];
            if k == addr.0 && l == addr.1 {
                assert(record_addr(before[i as int]) == addr);
                return false;
            }
            i = i + 1;
        }
        assert forall|j: int| 0 <= j < before.len() implies record_addr(#[trigger] before[j]) != addr by {
            assert(self.seen@[j] == record_addr(self.records@[j]@));
        }
        let ghost old_records = self.records@;
        self.seen.push(addr);
        self.records.push(record);
        proof {
            assert(self.view() =~= before.push(record@)) by {
                assert(self.records@ =~= old_records.push(record));
            }
        }
        true
    }

    /// The records kept, in the order they were first seen.
    pub fn into_records(self) -> (r: Vec<Vec<u8>>)
        ensures
            r@.map_values(|v: Vec<u8>| v@) == self.view(),
    {
        self.records
    }
}

/// The records a whole-table read keeps from everything the bursts sent.
pub fn first_records(records: &Vec<Vec<u8>>) -> (r: Vec<Vec<u8>>)
    ensures
        r@.map_values(|v: Vec<u8>| v@) == first_per_address(records@.map_values(|v: Vec<u8>| v@)),
{
    let ghost rs = records@.map_values(|v: Vec<u8>| v@);
    let mut table = SlotTable::new();
    let mut i: usize = 0;
    while i < records.len()
        invariant
            i <= records.len(),
            rs == records@.map_values(|v: Vec<u8>| v@),
            table.wf(),
            table.view() == first_per_address(rs.take(i as int)),
        decreases records.len() - i,
    {
        assert(rs.take(i + 1).drop_last() =~= rs.take(i as int));
        assert(rs.take(i + 1).last() == records@[i as int]@);
        let r = copy_bytes(&records[i]);
        table.absorb(r);
        i = i + 1;
    }
    assert(rs.take(records.len() as int) =~= rs);
    table.into_records()
}

fn copy_bytes(v: &Vec<u8>) -> (r: Vec<u8>)
    ensures
        r@ == v@,
{
    let mut out: Vec<u8> = Vec::new();
    let mut i: usize = 0;
    while i < v.len()
        invariant
            i <= v.len(),
            out@ == v@.take(i as int),
        decreases v.len() - i,
    {
        out.push(v[i]);
        assert(v@.take(i + 1) =~= v@.take(i as int).push(v@[i as int]));
        i = i + 1;
    }
    assert(v@.take(v.len() as int) =~= v@);
    out
}

/// No two kept records share an address.
pub proof fn lemma_first_per_address_distinct(records: Seq<Seq<u8>>)
    ensures
        forall|i: int, j: int| 0 <= i < j < first_per_address(records).len()
            ==> record_addr(#[trigger] first_per_address(records)[i]) != record_addr(#[trigger] first_per_address(records)[j]),
    decreases records.len(),
{
    if records.len() > 0 {
        lemma_first_per_address_distinct(records.drop_last());
        let kept = first_per_address(records.drop_last());
        let r = records.last();
        if r.len() > 3 && !holds_addr(kept, record_addr(r)) {
            assert forall|i: int, j: int| 0 <= i < j < kept.push(r).len()
                implies record_addr(#[trigger] kept.push(r)[i]) != record_addr(#[trigger] kept.push(r)[j]) by {
                if j == kept.len() {
                    assert(kept.push(r)[i] == kept[i]);
                    assert(kept.push(r)[j] == r);
                } else {
                    assert(kept.push(r)[i] == kept[i]);
                    assert(kept.push(r)[j] == kept[j]);
                }
            }
        }
    }
}

/// Every record long enough to carry an address has that address in the
/// table read: the burst read loses no slot it was sent.
pub proof fn lemma_first_per_address_covers(records: Seq<Seq<u8>>, k: int)
    requires
        0 <= k < records.len(),
        records[k].len() > 3,
    ensures
        holds_addr(first_per_address(records), record_addr(records[k])),
    decreases records.len(),
{
    let kept = first_per_address(records.drop_last());
    if k < records.len() - 1 {
        lemma_first_per_address_covers(records.drop_last(), k);
        assert(records.drop_last()[k] == records[k]);
        let i = choose|i: int| 0 <= i < kept.len() && record_addr(#[trigger] kept[i]) == record_addr(records[k]);
        let r = records.last();
        if r.len() > 3 && !holds_addr(kept, record_addr(r)) {
            assert(kept.push(r)[i] == kept[i]);
        }
    } else {
        let r = records.last();
        if r.len() > 3 && !holds_addr(kept, record_addr(r)) {
            assert(kept.push(r)[kept.len() as int] == r);
        }
    }
}

/// The index of the vendor interface to open: the first supported device
/// on the vendor usage page, else the first supported device at all.
pub open spec fn vendor_interface(devs: Seq<(u16, u16, u16)>) -> Option<int> {
    if exists|i: int| 0 <= i < devs.len() && first_vendor_at(devs, i) {
        Some(choose|i: int| 0 <= i < devs.len() && first_vendor_at(devs, i))
    } else if exists|i: int| 0 <= i < devs.len() && first_supported_at(devs, i) {
        Some(choose|i: int| 0 <= i < devs.len() && first_supported_at(devs, i))
    } else {
        None
    }
}

pub open spec fn supported_vendor(d: (u16, u16, u16)) -> bool {
    listed_device(d.0, d.1).is_some() && d.2 == VENDOR_USAGE_PAGE
}

pub open spec fn first_vendor_at(devs: Seq<(u16, u16, u16)>, i: int) -> bool {
    supported_vendor(devs[i]) && forall|j: int| 0 <= j < i ==> !supported_vendor(#[trigger] devs[j])
}

pub open spec fn first_supported_at(devs: Seq<(u16, u16, u16)>, i: int) -> bool {
    listed_device(devs[i].0, devs[i].1).is_some()
        && forall|j: int| 0 <= j < i ==> listed_device((#[trigger] devs[j]).0, devs[j].1).is_none()
}

/// Which enumerated interface `(vid, pid, usage page)` to open for
/// configuration. On macOS the vendor endpoint is on page `FF00` and needs
/// no privileges; elsewhere the first supported interface stands in.
pub fn pick_vendor_interface(devs: &Vec<(u16, u16, u16)>) -> (r: Option<usize>)
    ensures
        match (r, vendor_interface(devs@)) {
            (Some(i), Some(j)) => i == j,
            (None, None) => true,
            _ => false,
        },
{
    let mut i: usize = 0;
    while i < devs.len()
        invariant
            i <= devs.len(),
            forall|j: int| 0 <= j < i ==> !supported_vendor(#[trigger] devs@[j]),
        decreases devs.len() - i,
    {
        let (v, p, page) = devs[i];
        if is_supported(v, p) && page == VENDOR_USAGE_PAGE {
            proof {
                assert(first_vendor_at(devs@, i as int));
                let c = choose|c: int| 0 <= c < devs@.len() && first_vendor_at(devs@, c);
                if c < i {
                    assert(!supported_vendor(devs@[c]));
                }
                if c > i {
                    assert(!supported_vendor(devs@[i as int]));
                }
            }
            return Some(i);
        }
        i = i + 1;
    }
    let mut k: usize = 0;
    while k < devs.len()
        invariant
            k <= devs.len(),
            forall|j: int| 0 <= j < devs.len() ==> !supported_vendor(#[trigger] devs@[j]),
            forall|j: int| 0 <= j < k ==> listed_device((#[trigger] devs@[j]).0, devs@[j].1).is_none(),
        decreases devs.len() - k,
    {
        let (v, p, _page) = devs[k];
        if is_supported(v, p) {
            proof {
                assert(first_supported_at(devs@, k as int));
                let c = choose|c: int| 0 <= c < devs@.len() && first_supported_at(devs@, c);
                if c < k {
                    assert(listed_device(devs@[c].0, devs@[c].1).is_none());
                }
                if c > k {
                    assert(listed_device(devs@[k as int].0, devs@[k as int].1).is_none());
                }
                assert(!(exists|j: int| 0 <= j < devs@.len() && first_vendor_at(devs@, j)));
            }
            return Some(k);
        }
        k = k + 1;
    }
    None
}

/// The record an enumerated interface becomes, when the device is ours.
pub open spec fn matched_device(vid: u16, pid: u16, bluetooth_bus: bool, product: Seq<char>, m: DeviceMatch) -> bool {
    match classification(vid, pid, bluetooth_bus, product) {
        Some((name, t)) => m.vendor_id == vid && m.product_id == pid && m.name@ == name && m.transport == t,
        None => false,
    }
}

/// Build the listing entry for one enumerated interface, or `None` when the
/// device is not ours. A missing product string reads as empty.
pub fn match_device(
    vid: u16,
    pid: u16,
    bluetooth_bus: bool,
    product: Option<&str>,
    serial_number: Option<String>,
    path: String,
    usage_page: u16,
    usage: u16,
    interface_number: i32,
) -> (r: Option<DeviceMatch>)
    ensures
        match r {
            Some(m) => matched_device(vid, pid, bluetooth_bus, match product { Some(p) => p@, None => Seq::empty() }, m)
                && m.serial_number == serial_number && m.path == path && m.usage_page == usage_page
                && m.usage == usage && m.interface_number == interface_number,
            None => classification(vid, pid, bluetooth_bus, match product { Some(p) => p@, None => Seq::empty() }) is None,
        },
{
    let prod: &str = match product {
        Some(p) => p,
        None => "",
    };
    proof {
        reveal_strlit("");
    }
    assert(prod@ =~= match product { Some(p) => p@, None => Seq::<char>::empty() });
    match classify_device(vid, pid, bluetooth_bus, prod) {
        Some((name, transport)) => Some(DeviceMatch {
            vendor_id: vid,
            product_id: pid,
            name,
            serial_number,
            path,
            usage_page,
            usage,
            interface_number,
            transport,
        }),
        None => None,
    }
}

pub open spec fn snoop_label_text(vid: u16, pid: u16, usage_page: u16, usage: u16) -> Seq<char> {
    hex(vid as nat, 4) + ":"@ + hex(pid as nat, 4) + " up="@ + prefixed_hex(usage_page as nat, 4)
        + " use="@ + prefixed_hex(usage as nat, 2)
}

/// How a snooped interface is labelled: `514c:8850 up=0xff00 use=0x01`.
pub fn snoop_label(vid: u16, pid: u16, usage_page: u16, usage: u16) -> (r: String)
    ensures
        r@ == snoop_label_text(vid, pid, usage_page, usage),
{
    let mut s = String::new();
    push_hex(&mut s, vid as u64, 4);
    push_str(&mut s, ":");
    push_hex(&mut s, pid as u64, 4);
    push_str(&mut s, " up=");
    push_prefixed_hex(&mut s, usage_page as u64, 4);
    push_str(&mut s, " use=");
    push_prefixed_hex(&mut s, usage as u64, 2);
    assert(s@ =~= snoop_label_text(vid, pid, usage_page, usage));
    s
}

/// The slot-table walk: `(group, counter)` for counters `1..=n`, where the
/// group is the layer width and `n` covers every slot on every layer,
/// saturating at 255 rather than wrapping.
pub open spec fn table_walk_len(width: u8, layers: u8) -> nat {
    if width * layers < 255 { (width * layers) as nat } else { 255 }
}

/// The addresses of the walk, in order.
pub open spec fn table_walk(width: u8, layers: u8) -> Seq<(u8, u8)> {
    Seq::new(table_walk_len(width, layers), |i: int| (width, (i + 1) as u8))
}

pub fn slot_table_addresses(width: u8, layers: u8) -> (r: Vec<(u8, u8)>)
    ensures
        r@ == table_walk(width, layers),
{
    assert(width as u32 * layers as u32 <= 255 * 255) by (nonlinear_arith)
        requires
            width <= 255,
            layers <= 255,
    ;
    let total: u32 = width as u32 * layers as u32;
    let n: u32 = if total < 255 { total } else { 255 };
    let mut out: Vec<(u8, u8)> = Vec::new();
    let mut c: u32 = 1;
    while c <= n
        invariant
            1 <= c <= n + 1,
            n <= 255,
            out@.len() == c - 1,
            forall|i: int| 0 <= i < out@.len() ==> #[trigger] out@[i] == (width, (i + 1) as u8),
        decreases n + 1 - c,
    {
        out.push((width, c as u8));
        c = c + 1;
    }
    assert(out@ =~= table_walk(width, layers));
    out
}

/// The walk reads every slot exactly once: one group throughout, and the
/// counters are `1, 2, ..., n` with none repeated or skipped.
pub proof fn lemma_walk_reads_each_slot_once(width: u8, layers: u8)
    ensures
        forall|i: int| 0 <= i < table_walk(width, layers).len() ==> (#[trigger] table_walk(width, layers)[i]).0 == width,
        forall|i: int, j: int| 0 <= i < j < table_walk(width, layers).len()
            ==> (#[trigger] table_walk(width, layers)[i]).1 != (#[trigger] table_walk(width, layers)[j]).1,
        forall|c: int| 1 <= c <= table_walk(width, layers).len() ==> (#[trigger] table_walk(width, layers)[c - 1]).1 == c,
{
}

} // verus!

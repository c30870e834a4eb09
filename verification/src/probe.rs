//! Finding which slot a gesture drives, by experiment: the pieces that
//! decide what to save, what to write back, and what the capture heard.

use vstd::prelude::*;
use crate::device::verify::{parse_record, parsed_record};
use crate::firmware::{DEVICE_LAYERS, FE_CHORD_CMD};

verus! {

/// A read record turned back into the write that reproduces it: cut or
/// zero-padded to 64 bytes, with the write tag in place of the read tag.
/// The two share every other offset.
pub open spec fn write_of(record: Seq<u8>) -> Seq<u8> {
    let sized = if record.len() >= 64 {
        record.take(64)
    } else {
        record + Seq::new((64 - record.len()) as nat, |i: int| 0u8)
    };
    sized.update(1, FE_CHORD_CMD)
}

pub fn to_write(record: &Vec<u8>) -> (r: Vec<u8>)
    ensures
        r@ == write_of(record@),
{
    let mut p: Vec<u8> = Vec::new();
    let mut i: usize = 0;
    while i < 64
        invariant
            i <= 64,
            p@.len() == i,
            forall|k: int| 0 <= k < i ==> #[trigger] p@[k] == if k < record@.len() { record@[k] } else { 0u8 },
        decreases 64 - i,
    {
        if i < record.len() {
            p.push(record[i]);
        } else {
            p.push(0u8);
        }
        i = i + 1;
    }
    p.set(1, FE_CHORD_CMD);
    assert(p@ =~= write_of(record@));
    p
}

/// The slot records on one layer whose key is a probe candidate.
pub open spec fn candidate_records(table: Seq<Seq<u8>>, keys: Seq<u8>, layer: u8) -> Seq<Seq<u8>>
    decreases table.len(),
{
    if table.len() == 0 {
        Seq::empty()
    } else {
        let rest = candidate_records(table.drop_last(), keys, layer);
        match parsed_record(table.last()) {
            Some(p) => if p.0.layer == layer + 1 && keys.contains(p.0.key_id) {
                rest.push(table.last())
            } else {
                rest
            },
            None => rest,
        }
    }
}

fn holds_key(keys: &Vec<u8>, k: u8) -> (r: bool)
    ensures
        r == keys@.contains(k),
{
    let mut i: usize = 0;
    while i < keys.len()
        invariant
            i <= keys.len(),
            forall|j: int| 0 <= j < i ==> keys@[j] != k,
        decreases keys.len() - i,
    {
        if keys[i] == k {
            assert(keys@[i as int] == k);
            return true;
        }
        i = i + 1;
    }
    false
}

fn copy_bytes(v: &Vec<u8>) -> (r: Vec<u8>)
    ensures
        r@ == v@,
{
    let mut out: Vec<u8> = Vec::new();
    let mut i: usize = 0;
    while i < v.len()
        invariant
            i <= v.len(),
            out@ == v@.take(i as int),
        decreases v.len() - i,
    {
        out.push(v[i]);
        assert(v@.take(i + 1) =~= v@.take(i as int).push(v@[i as int]));
        i = i + 1;
    }
    assert(v@.take(v.len() as int) =~= v@);
    out
}

/// What a probe saves before writing markers: the candidates' current
/// records on the probed layer (`layer` is 0-based), so they can be put
/// back.
pub fn snapshot_records(table: &Vec<Vec<u8>>, keys: &Vec<u8>, layer: u8) -> (r: Vec<Vec<u8>>)
    requires
        layer < 255,
    ensures
        r@.map_values(|v: Vec<u8>| v@) == candidate_records(table@.map_values(|v: Vec<u8>| v@), keys@, layer),
{
    let ghost t = table@.map_values(|v: Vec<u8>| v@);
    let mut out: Vec<Vec<u8>> = Vec::new();
    let mut i: usize = 0;
    while i < table.len()
        invariant
            i <= table.len(),
            layer < 255,
            t == table@.map_values(|v: Vec<u8>| v@),
            out@.map_values(|v: Vec<u8>| v@) == candidate_records(t.take(i as int), keys@, layer),
        decreases table.len() - i,
    {
        assert(t.take(i + 1).drop_last() =~= t.take(i as int));
        assert(t.take(i + 1).last() == table@[i as int]@);
        match parse_record(&table[i]) {
            Some((a, _)) => {
                if a.layer == layer + 1 && holds_key(keys, a.key_id) {
                    let ghost before = out@;
                    let r = copy_bytes(&table[i]);
                    out.push(r);
                    assert(out@.map_values(|v: Vec<u8>| v@) =~= before.map_values(|v: Vec<u8>| v@).push(r@));
                }
            },
            None => {},
        }
        i = i + 1;
    }
    assert(t.take(table.len() as int) =~= t);
    out
}

/// The largest key id among parsed records, or `None` if none parses.
pub open spec fn max_key(records: Seq<Seq<u8>>) -> Option<u8>
    decreases records.len(),
{
    if records.len() == 0 {
        None
    } else {
        let rest = max_key(records.drop_last());
        match parsed_record(records.last()) {
            Some(p) => match rest {
                Some(m) => Some(if p.0.key_id > m { p.0.key_id } else { m }),
                None => Some(p.0.key_id),
            },
            None => rest,
        }
    }
}

/// How wide the read-back after a restore walks: far enough to reach the
/// widest saved key, or the firmware's layer count when nothing was saved.
pub fn restore_width(before: &Vec<Vec<u8>>) -> (r: u8)
    ensures
        r == match max_key(before@.map_values(|v: Vec<u8>| v@)) {
            Some(m) => m,
            None => DEVICE_LAYERS,
        },
{
    let ghost t = before@.map_values(|v: Vec<u8>| v@);
    let mut best: Option<u8> = None;
    let mut i: usize = 0;
    while i < before.len()
        invariant
            i <= before.len(),
            t == before@.map_values(|v: Vec<u8>| v@),
            best == max_key(t.take(i as int)),
        decreases before.len() - i,
    {
        assert(t.take(i + 1).drop_last() =~= t.take(i as int));
        assert(t.take(i + 1).last() == before@[i as int]@);
        match parse_record(&before[i]) {
            Some((a, _)) => {
                best = match best {
                    Some(m) => Some(if a.key_id > m { a.key_id } else { m }),
                    None => Some(a.key_id),
                };
            },
            None => {},
        }
        i = i + 1;
    }
    assert(t.take(before.len() as int) =~= t);
    match best {
        Some(m) => m,
        None => DEVICE_LAYERS,
    }
}

/// The consumer usage a three-byte report (ID, then a 16-bit usage, low
/// byte first) carries, when its low byte is not zero.
pub open spec fn usage_in(report: Seq<u8>) -> Option<u16> {
    if report.len() == 3 && report[1] != 0 {
        Some((report[1] + report[2] * 256) as u16)
    } else {
        None
    }
}

pub fn consumer_usage(report: &Vec<u8>) -> (r: Option<u16>)
    ensures
        r == usage_in(report@),
{
    if report.len() == 3 && report[1] != 0 {
        Some((report[1] as u16) + (report[2] as u16) * 256)
    } else {
        None
    }
}

/// Remember a usage the capture heard, once.
pub fn note_usage(seen: &mut Vec<u16>, usage: u16)
    ensures
        final(seen)@ == if old(seen)@.contains(usage) { old(seen)@ } else { old(seen)@.push(usage) },
{
    let mut i: usize = 0;
    while i < seen.len()
        invariant
            i <= seen.len(),
            forall|j: int| 0 <= j < i ==> seen@[j] != usage,
        decreases seen.len() - i,
    {
        if seen[i] == usage {
            assert(seen@[i as int] == usage);
            return;
        }
        i = i + 1;
    }
    seen.push(usage);
}

} // verus!

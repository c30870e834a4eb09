//! Checking that a keymap write actually landed.
//!
//! A write is not evidence; a read-back is. Requests (`03 FE ...`) and
//! replies (`03 FA ...`) share every offset that says what a slot holds, so
//! one parser serves both and the comparison needs no hardware.

use vstd::prelude::*;
use crate::firmware::{REPORT_ID, FE_CHORD_CMD, SLOT_TABLE_QUERY_CMD, SLOT_MAX_KEY_ID};
use crate::text::{push_str, lemma_map_push, push_decimal, decimal, join, join_strings};

verus! {

/// One slot as the device reports it. `layer` is the 1-based wire value.
#[derive(Debug, Clone, Copy, PartialEq, Eq, Hash, Structural)]
pub struct SlotAddr {
    pub key_id: u8,
    pub layer: u8,
}

/// The action bytes that decide whether two records mean the same thing.
#[derive(Debug, Clone, Copy, PartialEq, Eq, Structural)]
pub struct SlotAction {
    pub kind: u8,
    pub media: u8,
    pub mods: u8,
    pub code: u8,
}

/// The addressed action of a 64-byte record, request or reply: report
/// `03`, tag `FE` or `FA`, a key id in `1..=40` and a layer in `1..=3`.
pub open spec fn parsed_record(r: Seq<u8>) -> Option<(SlotAddr, SlotAction)> {
    if r.len() < 13 || r[0] != REPORT_ID {
        None
    } else if r[1] != FE_CHORD_CMD && r[1] != SLOT_TABLE_QUERY_CMD {
        None
    } else if r[2] == 0 || r[2] > SLOT_MAX_KEY_ID || r[3] == 0 || r[3] > 3 {
        None
    } else {
        Some((
            SlotAddr { key_id: r[2], layer: r[3] },
            SlotAction { kind: r[4], media: r[9], mods: r[11], code: r[12] },
        ))
    }
}

/// Read the addressed action out of a record, request or reply.
pub fn parse_record(record: &Vec<u8>) -> (r: Option<(SlotAddr, SlotAction)>)
    ensures
        r == parsed_record(record@),
{
    if record.len() < 13 || record[0] != REPORT_ID {
        return None;
    }
    if record[1] != FE_CHORD_CMD && record[1] != SLOT_TABLE_QUERY_CMD {
        return None;
    }
    let key_id: u8 = record[2];
    let layer: u8 = record[3];
    let kind: u8 = record[4];
    if key_id == 0 || key_id > SLOT_MAX_KEY_ID || layer == 0 || layer > 3 {
        return None;
    }
    Some((
        SlotAddr { key_id, layer },
        SlotAction { kind, media: record[9], mods: record[11], code: record[12] },
    ))
}

/// What a verification pass concluded about one written slot.
#[derive(Debug, Clone, Copy, PartialEq, Eq, Structural)]
pub enum SlotVerdict {
    /// Read back with the action written.
    Confirmed,
    /// Read back holding something else.
    Mismatched,
    /// Never seen in the dump; not proof of failure.
    NotSeen,
}

/// The records' bytes.
pub open spec fn record_views(v: Seq<Vec<u8>>) -> Seq<Seq<u8>> {
    v.map_values(|r: Vec<u8>| r@)
}

/// Every record that parses, in order.
pub open spec fn parsed_all(records: Seq<Seq<u8>>) -> Seq<(SlotAddr, SlotAction)>
    decreases records.len(),
{
    if records.len() == 0 {
        Seq::empty()
    } else {
        let rest = parsed_all(records.drop_last());
        match parsed_record(records.last()) {
            Some(p) => rest.push(p),
            None => rest,
        }
    }
}

/// The first action seen at an address.
pub open spec fn first_at(seen: Seq<(SlotAddr, SlotAction)>, addr: SlotAddr) -> Option<SlotAction>
    decreases seen.len(),
{
    if seen.len() == 0 {
        None
    } else if seen[0].0 == addr {
        Some(seen[0].1)
    } else {
        first_at(seen.drop_first(), addr)
    }
}

/// The verdict on one written slot against what the dump showed.
pub open spec fn verdict(seen: Seq<(SlotAddr, SlotAction)>, addr: SlotAddr, want: SlotAction) -> SlotVerdict {
    match first_at(seen, addr) {
        None => SlotVerdict::NotSeen,
        Some(got) => if got == want {
            SlotVerdict::Confirmed
        } else {
            SlotVerdict::Mismatched
        },
    }
}

/// One verdict per written record that parses, in write order.
pub open spec fn verdicts(written: Seq<Seq<u8>>, observed: Seq<Seq<u8>>) -> Seq<(SlotAddr, SlotVerdict)> {
    let seen = parsed_all(observed);
    parsed_all(written).map_values(|p: (SlotAddr, SlotAction)| (p.0, verdict(seen, p.0, p.1)))
}

fn parse_all(records: &Vec<Vec<u8>>) -> (r: Vec<(SlotAddr, SlotAction)>)
    ensures
        r@ == parsed_all(record_views(records@)),
{
    let ghost all = record_views(records@);
    let mut out: Vec<(SlotAddr, SlotAction)> = Vec::new();
    let mut i: usize = 0;
    while i < records.len()
        invariant
            i <= records.len(),
            all == record_views(records@),
            out@ == parsed_all(all.take(i as int)),
        decreases records.len() - i,
    {
        assert(all.take(i + 1).drop_last() =~= all.take(i as int));
        assert(all.take(i + 1).last() == records@[i as int]@);
        match parse_record(&records[i]) {
            Some(p) => out.push(p),
            None => {},
        }
        i = i + 1;
    }
    assert(all.take(records.len() as int) =~= all);
    out
}

fn find_at(seen: &Vec<(SlotAddr, SlotAction)>, addr: SlotAddr) -> (r: Option<SlotAction>)
    ensures
        r == first_at(seen@, addr),
{
    let mut i: usize = 0;
    assert(seen@.skip(0) =~= seen@);
    while i < seen.len()
        invariant
            i <= seen.len(),
            first_at(seen@, addr) == first_at(seen@.skip(i as int), addr),
        decreases seen.len() - i,
    {
        assert(seen@.skip(i as int)[0] == seen@[i as int]);
        assert(seen@.skip(i as int).drop_first() =~= seen@.skip(i + 1));
        if seen[i].0 == addr {
            return Some(seen[i].1);
        }
        i = i + 1;
    }
    assert(seen@.skip(i as int) =~= Seq::<(SlotAddr, SlotAction)>::empty());
    None
}

/// Compare what was written against what the device reports.
pub fn verify(written: &Vec<Vec<u8>>, observed: &Vec<Vec<u8>>) -> (r: Vec<(SlotAddr, SlotVerdict)>)
    ensures
        r@ == verdicts(record_views(written@), record_views(observed@)),
{
    let seen = parse_all(observed);
    let wrote = parse_all(written);
    let ghost want = verdicts(record_views(written@), record_views(observed@));
    let mut out: Vec<(SlotAddr, SlotVerdict)> = Vec::new();
    let mut i: usize = 0;
    while i < wrote.len()
        invariant
            i <= wrote.len(),
            seen@ == parsed_all(record_views(observed@)),
            wrote@ == parsed_all(record_views(written@)),
            want == verdicts(record_views(written@), record_views(observed@)),
            want.len() == wrote@.len(),
            out@ == want.take(i as int),
        decreases wrote.len() - i,
    {
        let (addr, w) = wrote[i];
        let v = match find_at(&seen, addr) {
            None => SlotVerdict::NotSeen,
            Some(got) => if got == w {
                SlotVerdict::Confirmed
            } else {
                SlotVerdict::Mismatched
            },
        };
        out.push((addr, v));
        assert(out@ =~= want.take(i + 1));
        i = i + 1;
    }
    assert(want.take(wrote.len() as int) =~= want);
    out
}

/// Addresses read back holding something else, in order.
pub open spec fn mismatched(v: Seq<(SlotAddr, SlotVerdict)>) -> Seq<SlotAddr>
    decreases v.len(),
{
    if v.len() == 0 {
        Seq::empty()
    } else if v.last().1 == SlotVerdict::Mismatched {
        mismatched(v.drop_last()).push(v.last().0)
    } else {
        mismatched(v.drop_last())
    }
}

/// How many slots never showed up.
pub open spec fn unseen(v: Seq<(SlotAddr, SlotVerdict)>) -> nat
    decreases v.len(),
{
    if v.len() == 0 {
        0
    } else if v.last().1 == SlotVerdict::NotSeen {
        unseen(v.drop_last()) + 1
    } else {
        unseen(v.drop_last())
    }
}

/// A slot as the user reads it: `key 4 layer 1`.
pub open spec fn addr_label(a: SlotAddr) -> Seq<char> {
    "key "@ + decimal(a.key_id as nat) + " layer "@ + decimal(a.layer as nat)
}

/// The summary of a verification pass: a mismatch beats an absence, and
/// all-confirmed says nothing.
pub open spec fn summary(v: Seq<(SlotAddr, SlotVerdict)>) -> Option<Seq<char>> {
    let wrong = mismatched(v);
    if wrong.len() > 0 {
        Some(decimal(wrong.len()) + " slot(s) read back with a different action than was written: "@
            + join(wrong.map_values(|a: SlotAddr| addr_label(a)), ", "@))
    } else if unseen(v) > 0 {
        Some(decimal(unseen(v)) + " of "@ + decimal(v.len())
            + " slot(s) did not appear in the read-back, so the write is unconfirmed"@)
    } else {
        None
    }
}

fn label(a: SlotAddr) -> (r: String)
    ensures
        r@ == addr_label(a),
{
    let mut s = String::new();
    push_str(&mut s, "key ");
    push_decimal(&mut s, a.key_id as u128);
    push_str(&mut s, " layer ");
    push_decimal(&mut s, a.layer as u128);
    s
}

/// A one-line summary a user can act on, or `None` when every slot that
/// came up in the dump matched and none is outright wrong.
pub fn summarize(verdicts: &Vec<(SlotAddr, SlotVerdict)>) -> (r: Option<String>)
    ensures
        match (r, summary(verdicts@)) {
            (None, None) => true,
            (Some(s), Some(want)) => s@ == want,
            _ => false,
        },
{
    let mut labels: Vec<String> = Vec::new();
    let ghost wrong_labels = Seq::<Seq<char>>::empty();
    let mut count_unseen: usize = 0;
    let mut i: usize = 0;
    while i < verdicts.len()
        invariant
            i <= verdicts.len(),
            labels@.map_values(|s: String| s@) == mismatched(verdicts@.take(i as int)).map_values(
                |a: SlotAddr| addr_label(a),
            ),
            count_unseen == unseen(verdicts@.take(i as int)),
            count_unseen <= i,
        decreases verdicts.len() - i,
    {
        assert(verdicts@.take(i + 1).drop_last() =~= verdicts@.take(i as int));
        assert(verdicts@.take(i + 1).last() == verdicts@[i as int]);
        let (addr, v) = verdicts[i];
        let ghost before = labels@;
        if v == SlotVerdict::Mismatched {
            let l = label(addr);
            labels.push(l);
            proof {
                crate::text::lemma_map_push(before, l, |s: String| s@);
                crate::text::lemma_map_push(mismatched(verdicts@.take(i as int)), addr, |a: SlotAddr| addr_label(a));
            }
        } else if v == SlotVerdict::NotSeen {
            count_unseen = count_unseen + 1;
        }
        i = i + 1;
    }
    assert(verdicts@.take(verdicts.len() as int) =~= verdicts@);
    if labels.len() > 0 {
        let mut s = String::new();
        push_decimal(&mut s, labels.len() as u128);
        push_str(&mut s, " slot(s) read back with a different action than was written: ");
        let joined = join_strings(&labels, ", ");
        push_str(&mut s, joined.as_str());
        return Some(s);
    }
    if count_unseen > 0 {
        let mut s = String::new();
        push_decimal(&mut s, count_unseen as u128);
        push_str(&mut s, " of ");
        push_decimal(&mut s, verdicts.len() as u128);
        push_str(&mut s, " slot(s) did not appear in the read-back, so the write is unconfirmed");
        return Some(s);
    }
    None
}

proof fn lemma_first_at_index(seen: Seq<(SlotAddr, SlotAction)>, i: int)
    requires
        0 <= i < seen.len(),
        forall|j: int| 0 <= j < i ==> (#[trigger] seen[j]).0 != seen[i].0,
    ensures
        first_at(seen, seen[i].0) == Some(seen[i].1),
    decreases i,
{
    if i > 0 {
        let rest = seen.drop_first();
        assert forall|j: int| 0 <= j < i - 1 implies (#[trigger] rest[j]).0 != rest[i - 1].0 by {
            assert(rest[j] == seen[j + 1]);
        }
        lemma_first_at_index(rest, i - 1);
        assert(seen[0].0 != seen[i].0);
    }
}

/// Checked against itself, a write whose slots are all distinct reads back
/// confirmed on every slot: the comparison never faults a write that
/// landed.
pub proof fn lemma_self_readback_confirmed(written: Seq<Seq<u8>>)
    requires
        forall|i: int, j: int| 0 <= i < j < parsed_all(written).len()
            ==> (#[trigger] parsed_all(written)[i]).0 != (#[trigger] parsed_all(written)[j]).0,
    ensures
        forall|k: int| 0 <= k < verdicts(written, written).len() ==> (#[trigger] verdicts(written, written)[k]).1
            == SlotVerdict::Confirmed,
{
    let seen = parsed_all(written);
    assert forall|k: int| 0 <= k < verdicts(written, written).len() implies (#[trigger] verdicts(written, written)[k]).1
        == SlotVerdict::Confirmed by {
        assert forall|j: int| 0 <= j < k implies (#[trigger] seen[j]).0 != seen[k].0 by {
            assert(seen[j].0 != seen[k].0);
        }
        lemma_first_at_index(seen, k);
    }
}


/// A written slot is confirmed exactly when the first record read back at
/// its address holds the same action in every field (kind, media usage,
/// modifiers and key code); a record there that differs in any field makes
/// it mismatched; no record there leaves it unseen.
pub proof fn lemma_verdict_compares_every_field(seen: Seq<(SlotAddr, SlotAction)>, addr: SlotAddr, want: SlotAction)
    ensures
        (verdict(seen, addr, want) == SlotVerdict::Confirmed) <==> (first_at(seen, addr) == Some(want)),
        (verdict(seen, addr, want) == SlotVerdict::Mismatched) <==> (first_at(seen, addr) matches Some(got) && (
            got.kind != want.kind || got.media != want.media || got.mods != want.mods || got.code != want.code)),
        (verdict(seen, addr, want) == SlotVerdict::NotSeen) <==> (first_at(seen, addr) is None),
{
}

/// One written record checked against one record read back at the same
/// address: confirmed exactly when the two agree on the kind (byte 4), the
/// media usage (byte 9), the modifiers (byte 11) and the key code (byte 12).
pub proof fn lemma_one_slot_readback(w: Seq<u8>, o: Seq<u8>)
    requires
        parsed_record(w) is Some,
        parsed_record(o) is Some,
        w[2] == o[2],
        w[3] == o[3],
    ensures
        verdicts(seq![w], seq![o]) == seq![(
            SlotAddr { key_id: w[2], layer: w[3] },
            if w[4] == o[4] && w[9] == o[9] && w[11] == o[11] && w[12] == o[12] {
                SlotVerdict::Confirmed
            } else {
                SlotVerdict::Mismatched
            },
        )],
{
    assert(seq![w].drop_last() =~= Seq::<Seq<u8>>::empty());
    assert(seq![o].drop_last() =~= Seq::<Seq<u8>>::empty());
    assert(parsed_all(Seq::<Seq<u8>>::empty()) =~= Seq::<(SlotAddr, SlotAction)>::empty());
    assert(seq![w].last() == w);
    assert(seq![o].last() == o);
    let pw = parsed_all(seq![w]);
    let po = parsed_all(seq![o]);
    assert(pw =~= seq![parsed_record(w)->0]);
    assert(po =~= seq![parsed_record(o)->0]);
    assert(po.drop_first() =~= Seq::<(SlotAddr, SlotAction)>::empty());
    assert(verdicts(seq![w], seq![o]) =~= seq![(
        SlotAddr { key_id: w[2], layer: w[3] },
        if w[4] == o[4] && w[9] == o[9] && w[11] == o[11] && w[12] == o[12] {
            SlotVerdict::Confirmed
        } else {
            SlotVerdict::Mismatched
        },
    )]);
}

} // verus!

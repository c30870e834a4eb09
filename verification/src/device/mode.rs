//! Which mode the knob's firmware is actually in.
//!
//! Host layers only fire when the knob's gestures send the bound slot
//! chords. The slot table says whether they do, so the mode is read, not
//! assumed: a table in, a mode out.

use vstd::prelude::*;
use crate::device::verify::{SlotAddr, SlotAction, parse_record, parsed_record};
use crate::protocol::{KnobEvent, key_id_for_knob, knob_key_id};

verus! {

/// What the firmware will do when the knob is turned.
#[derive(Debug, Clone, Copy, PartialEq, Eq, Structural)]
pub enum KnobMode {
    /// Knob gestures send the bound slot chords, so host layers run.
    HostTranslate,
    /// Knob gestures send ordinary actions; host layers cannot fire.
    Standalone,
    /// Nothing in the table for the knob's slots: an absence of evidence.
    Unknown,
}

pub open spec fn mode_name(m: KnobMode) -> Seq<char> {
    match m {
        KnobMode::HostTranslate => "host-translate"@,
        KnobMode::Standalone => "standalone"@,
        KnobMode::Unknown => "unknown"@,
    }
}

impl KnobMode {
    pub fn as_str(&self) -> (r: &'static str)
        ensures
            r@ == mode_name(*self),
    {
        match self {
            KnobMode::HostTranslate => "host-translate",
            KnobMode::Standalone => "standalone",
            KnobMode::Unknown => "unknown",
        }
    }
}

/// Whether a key id is one of the first knob's twist and press slots.
pub open spec fn is_knob_slot(button_count: nat, key_id: u8) -> bool {
    key_id == knob_key_id(button_count, 0, KnobEvent::RotateCCW)
        || key_id == knob_key_id(button_count, 0, KnobEvent::Press)
        || key_id == knob_key_id(button_count, 0, KnobEvent::RotateCW)
}

/// A knob record that binds something.
pub open spec fn evidence(button_count: nat, p: (SlotAddr, SlotAction)) -> bool {
    is_knob_slot(button_count, p.0.key_id) && !(p.1.media == 0 && p.1.code == 0)
}

/// A knob record carrying a ctrl+alt+F16/F17/F18 slot chord.
pub open spec fn chord(button_count: nat, p: (SlotAddr, SlotAction)) -> bool {
    evidence(button_count, p) && p.1.kind == 1 && p.1.mods == 0x05 && 0x6B <= p.1.code <= 0x6D
}

/// The mode a slot-table dump shows.
pub open spec fn knob_mode(records: Seq<Seq<u8>>, button_count: nat) -> KnobMode {
    if !(exists|i: int| 0 <= i < records.len() && (#[trigger] parsed_record(records[i]) matches Some(p) && evidence(button_count, p))) {
        KnobMode::Unknown
    } else if exists|i: int| 0 <= i < records.len() && (#[trigger] parsed_record(records[i]) matches Some(p) && chord(button_count, p)) {
        KnobMode::HostTranslate
    } else {
        KnobMode::Standalone
    }
}

fn is_knob_id(button_count: usize, key_id: u8) -> (r: bool)
    ensures
        r == is_knob_slot(button_count as nat, key_id),
{
    let a = key_id_for_knob(button_count, 0, KnobEvent::RotateCCW);
    let b = key_id_for_knob(button_count, 0, KnobEvent::Press);
    let c = key_id_for_knob(button_count, 0, KnobEvent::RotateCW);
    a == Some(key_id) || b == Some(key_id) || c == Some(key_id)
}

/// Read the mode off a slot-table dump. `button_count` places the knob's
/// slots, exactly as it does when bindings are written.
pub fn classify(records: &Vec<Vec<u8>>, button_count: usize) -> (r: KnobMode)
    ensures
        r == knob_mode(records@.map_values(|v: Vec<u8>| v@), button_count as nat),
{
    let ghost rs = records@.map_values(|v: Vec<u8>| v@);
    let mut saw_knob_slot = false;
    let mut saw_chord = false;
    let mut i: usize = 0;
    while i < records.len()
        invariant
            i <= records.len(),
            rs == records@.map_values(|v: Vec<u8>| v@),
            saw_knob_slot == exists|k: int| 0 <= k < i && (#[trigger] parsed_record(rs[k]) matches Some(p) && evidence(button_count as nat, p)),
            saw_chord == exists|k: int| 0 <= k < i && (#[trigger] parsed_record(rs[k]) matches Some(p) && chord(button_count as nat, p)),
        decreases records.len() - i,
    {
        assert(rs[i as int] == records@[i as int]@);
        match parse_record(&records[i]) {
            Some((addr, action)) => {
                if is_knob_id(button_count, addr.key_id) && !(action.media == 0 && action.code == 0) {
                    saw_knob_slot = true;
                    if action.kind == 1 && action.mods == 0x05 && 0x6B <= action.code && action.code <= 0x6D {
                        saw_chord = true;
                    }
                }
            },
            None => {},
        }
        i = i + 1;
    }
    if !saw_knob_slot {
        KnobMode::Unknown
    } else if saw_chord {
        KnobMode::HostTranslate
    } else {
        KnobMode::Standalone
    }
}

} // verus!

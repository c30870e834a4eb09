//! The decisions of the commands that reach the device from the daemon and
//! the MCP server: which layers a slot bind targets, which key ids it
//! writes, what a sequence bind sends and when its read-back confirms it,
//! and what an LED request sends and says. The device I/O is the caller's.

use vstd::prelude::*;
use crate::commands::{BindSeqError, BindSeqFault};
use crate::fd::{Step, build_packet, fd_record, parse_sequence, parsed_steps, record_matches, records_match, views};
use crate::firmware::{DEVICE_LAYERS, SLOT_MAX_KEY_ID};
use crate::protocol::{KnobEvent, all_events, key_id_for_knob, knob_key_id};
use crate::text::{decimal, push_decimal, push_str};

verus! {

/// The device layers a slot bind writes when a request names none.
pub open spec fn all_bind_layers() -> Seq<u8> {
    seq![0u8, 1u8, 2u8]
}

/// The layers a slot bind targets: the plural list when the request has
/// one, else the single layer, else every device layer.
pub open spec fn bind_layers_of(layers: Option<Seq<u8>>, layer: Option<u8>) -> Seq<u8> {
    match layers {
        Some(ls) => ls,
        None => match layer {
            Some(l) => seq![l],
            None => all_bind_layers(),
        },
    }
}

/// Which device layers a slot bind targets. A request may spell it `layers`
/// (a list) or `layer` (one); the list wins when both are there.
pub fn resolve_bind_layers(layers: Option<Vec<u8>>, layer: Option<u8>) -> (r: Vec<u8>)
    ensures
        r@ == bind_layers_of(
            match layers {
                Some(ls) => Some(ls@),
                None => None,
            },
            layer,
        ),
{
    match layers {
        Some(ls) => ls,
        None => match layer {
            Some(l) => vec![l],
            None => {
                let v = vec![0u8, 1u8, 2u8];
                assert(v@ =~= all_bind_layers());
                v
            },
        },
    }
}

/// Why a slot bind was refused before anything was written.
#[derive(Debug, Clone, Copy, PartialEq, Eq, Structural)]
pub enum BindSlotsError {
    /// The button count puts the knob's slots past the addressable ones.
    TooManyButtons { buttons: usize },
}

impl BindSlotsError {
    pub fn message(&self) -> (r: String)
        ensures
            match *self {
                BindSlotsError::TooManyButtons { buttons } => r@ == "button count "@ + decimal(buttons as nat)
                    + " is past the addressable slots (max "@ + decimal(SLOT_MAX_KEY_ID as nat) + ")"@,
            },
    {
        match self {
            BindSlotsError::TooManyButtons { buttons } => {
                let mut s = String::new();
                push_str(&mut s, "button count ");
                push_decimal(&mut s, *buttons as u128);
                push_str(&mut s, " is past the addressable slots (max ");
                push_decimal(&mut s, SLOT_MAX_KEY_ID as u128);
                push_str(&mut s, ")");
                s
            },
        }
    }
}

/// The key ids of the first knob's gestures on a device with `buttons`
/// buttons, in gesture order.
pub open spec fn slot_key_ids(buttons: nat) -> Seq<u8> {
    all_events().map_values(|e: KnobEvent| knob_key_id(buttons, 0, e) as u8)
}

/// The key ids a slot bind writes for a device with `buttons` buttons. A
/// count is distrusted like any remote input: one past the slot space is
/// refused rather than wrapped onto another key's slot.
pub fn bind_slots_key_ids(buttons: usize) -> (r: Result<Vec<u8>, BindSlotsError>)
    ensures
        buttons > SLOT_MAX_KEY_ID ==> r == Err::<Vec<u8>, BindSlotsError>(BindSlotsError::TooManyButtons { buttons }),
        buttons <= SLOT_MAX_KEY_ID ==> (r matches Ok(ids) && ids@ == slot_key_ids(buttons as nat)),
{
    if buttons > SLOT_MAX_KEY_ID as usize {
        return Err(BindSlotsError::TooManyButtons { buttons });
    }
    let events = crate::protocol::knob_events();
    let mut ids: Vec<u8> = Vec::new();
    let mut i: usize = 0;
    while i < events.len()
        invariant
            buttons <= SLOT_MAX_KEY_ID,
            events@ == all_events(),
            i <= events@.len(),
            ids@ == slot_key_ids(buttons as nat).take(i as int),
        decreases events.len() - i,
    {
        let e = events[i];
        let id = match key_id_for_knob(buttons, 0, e) {
            Some(id) => id,
            None => {
                assert(knob_key_id(buttons as nat, 0, e) <= 255);
                return Err(BindSlotsError::TooManyButtons { buttons });
            },
        };
        ids.push(id);
        assert(slot_key_ids(buttons as nat).take(i + 1) =~= slot_key_ids(buttons as nat).take(i as int).push(id));
        i = i + 1;
    }
    assert(slot_key_ids(buttons as nat).take(5) =~= slot_key_ids(buttons as nat));
    Ok(ids)
}

/// Parsed steps with `delay_ms` before every step after the first.
pub open spec fn delayed(steps: Seq<Step>, delay_ms: u16) -> Seq<Step> {
    Seq::new(steps.len(), |i: int| if i == 0 { steps[i] } else { Step { action: steps[i].action, delay_ms } })
}

/// The record a daemon sequence bind writes.
pub open spec fn sequence_bind_record(key: u8, layer: u8, actions: Seq<Seq<char>>, delay_ms: u16) -> Result<Seq<u8>, BindSeqFault> {
    if layer >= DEVICE_LAYERS {
        Err(BindSeqFault::NoSuchLayer { layer })
    } else {
        match parsed_steps(actions) {
            Err(e) => Err(BindSeqFault::Parse(e)),
            Ok(steps) => match fd_record(key, layer, delayed(steps, delay_ms)) {
                Err(e) => Err(BindSeqFault::Record(e)),
                Ok(p) => Ok(p),
            },
        }
    }
}

/// The record that binds gesture `key` on `layer` to `actions`, waiting
/// `delay_ms` before every action after the first.
pub fn bind_sequence_packet(key: u8, layer: u8, actions: &Vec<String>, delay_ms: u16) -> (r: Result<Vec<u8>, BindSeqError>)
    ensures
        match (r, sequence_bind_record(key, layer, views(actions@), delay_ms)) {
            (Ok(p), Ok(want)) => p@ == want,
            (Err(e), Err(want)) => e@ == want,
            _ => false,
        },
{
    if layer >= DEVICE_LAYERS {
        return Err(BindSeqError::NoSuchLayer { layer });
    }
    let mut steps = match parse_sequence(actions) {
        Ok(s) => s,
        Err(e) => return Err(BindSeqError::Parse(e)),
    };
    let ghost parsed = steps@;
    let mut i: usize = 1;
    while i < steps.len()
        invariant
            1 <= i,
            steps@.len() == parsed.len(),
            i <= steps@.len() || parsed.len() == 0,
            forall|k: int| 0 <= k < steps@.len() ==> #[trigger] steps@[k] == if k == 0 || k >= i {
                parsed[k]
            } else {
                Step { action: parsed[k].action, delay_ms }
            },
        decreases steps.len() - i,
    {
        let a = steps[i].action;
        steps.set(i, Step { action: a, delay_ms });
        i = i + 1;
    }
    assert(steps@ =~= delayed(parsed, delay_ms));
    match build_packet(key, layer, &steps) {
        Ok(p) => Ok(p),
        Err(e) => Err(BindSeqError::Record(e)),
    }
}

/// Some record of `table` matches what was sent.
pub open spec fn table_holds(sent: Seq<u8>, table: Seq<Seq<u8>>) -> bool {
    exists|i: int| 0 <= i < table.len() && records_match(sent, #[trigger] table[i])
}

/// A sequence bind is confirmed only when the table read back holds the
/// record that was sent; a write that landed nowhere is unconfirmed.
pub fn confirm_sequence_bind(key: u8, layer: u8, sent: &Vec<u8>, table: &Vec<Vec<u8>>) -> (r: Result<(), String>)
    ensures
        table_holds(sent@, table@.map_values(|r: Vec<u8>| r@)) ==> r is Ok,
        !table_holds(sent@, table@.map_values(|r: Vec<u8>| r@)) ==> (r matches Err(m) && m@ == "slot "@
            + decimal(key as nat) + " layer "@ + decimal(layer as nat)
            + " did not read back as written; the binding is UNCONFIRMED"@),
{
    let ghost rows = table@.map_values(|r: Vec<u8>| r@);
    let mut i: usize = 0;
    while i < table.len()
        invariant
            i <= table@.len(),
            rows == table@.map_values(|r: Vec<u8>| r@),
            forall|k: int| 0 <= k < i ==> !records_match(sent@, #[trigger] rows[k]),
        decreases table.len() - i,
    {
        if record_matches(sent, &table[i]) {
            assert(records_match(sent@, rows[i as int]));
            return Ok(());
        }
        i = i + 1;
    }
    let mut m = String::new();
    push_str(&mut m, "slot ");
    push_decimal(&mut m, key as u128);
    push_str(&mut m, " layer ");
    push_decimal(&mut m, layer as u128);
    push_str(&mut m, " did not read back as written; the binding is UNCONFIRMED");
    Err(m)
}

/// The LED spec an LED request sends: the mode, then the colour when one
/// is given and not empty.
pub open spec fn led_request_text(mode: Seq<char>, color: Option<Seq<char>>) -> Seq<char> {
    match color {
        Some(c) if c.len() > 0 => mode + " "@ + c,
        _ => mode,
    }
}

/// The LED spec an LED request sends.
pub fn led_request_spec(mode: &str, color: Option<&str>) -> (r: String)
    ensures
        r@ == led_request_text(mode@, match color { Some(c) => Some(c@), None => None }),
{
    let mut s = String::new();
    push_str(&mut s, mode);
    match color {
        Some(c) => {
            if c.unicode_len() > 0 {
                push_str(&mut s, " ");
                push_str(&mut s, c);
            }
        },
        None => {},
    }
    s
}

/// Whether an LED write goes out: not when the mode the spec names is known
/// and the layer already holds it. Re-sending the stored mode can wedge the
/// ring's renderer, and skipping it changes nothing.
pub fn led_write_needed(wanted: Option<u8>, current: Option<u8>) -> (r: bool)
    ensures
        r == !(wanted is Some && current is Some && wanted == current),
{
    match (wanted, current) {
        (Some(w), Some(c)) => w != c,
        _ => true,
    }
}

/// What an LED reply adds for the reader: the ring can wedge, and a layer
/// past the firmware's own stores a mode nobody has seen rendered.
pub open spec fn led_note_text(layer: u8) -> Seq<char> {
    "If the ring doesn't match, unplug/replug the knob -- its renderer can wedge after a mode change."@
        + if layer >= DEVICE_LAYERS {
            " Layer "@ + decimal(layer as nat) + " is past the firmware's "@ + decimal(DEVICE_LAYERS as nat)
                + " layers: it stores, render unmeasured."@
        } else {
            Seq::empty()
        }
}

/// What an LED reply adds for the reader.
pub fn led_note(layer: u8) -> (r: String)
    ensures
        r@ == led_note_text(layer),
{
    let mut s = String::new();
    push_str(&mut s, "If the ring doesn't match, unplug/replug the knob -- its renderer can wedge after a mode change.");
    if layer >= DEVICE_LAYERS {
        push_str(&mut s, " Layer ");
        push_decimal(&mut s, layer as u128);
        push_str(&mut s, " is past the firmware's ");
        push_decimal(&mut s, DEVICE_LAYERS as u128);
        push_str(&mut s, " layers: it stores, render unmeasured.");
    }
    s
}

} // verus!

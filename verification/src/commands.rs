//! What the command line's device commands decide, before and after they
//! touch the device.
//!
//! Packets are built before the device is touched, so a layout that does
//! not parse aborts without leaving the firmware half-programmed; and a
//! write is only called a success once the slot table reads it back.

use vstd::prelude::*;
use crate::binding::{Binding, BindingError, BindingFault, binding_record, copy_string};
use crate::config::{DeviceConfig, LayerConfig, KnobConfig, ConfigError, ConfigFault, config_problem, grid_fits,
    knob_bindings};
use crate::device::snoop::{parsed_u16_hex};
use crate::device::verify::{SlotAddr, parse_record, parsed_record};
use crate::fd::{FdError, Step, build_packet, fd_record, parse_sequence, parsed_steps, record_matches, records_match,
    views, wipe_packet, wipe_record};
use crate::firmware::{DEVICE_LAYERS, GESTURES_PER_KNOB};
use crate::protocol::{KnobEvent, ParseError, ParseFault, key_id_for_button, key_id_for_knob, knob_key_id};
use crate::text::{chars_of, decimal, lemma_map_push, push_char, push_decimal, push_str};

verus! {

/// `s` without one leading `0x`, or else one leading `0X`.
pub open spec fn strip_hex_prefix(s: Seq<char>) -> Seq<char> {
    if s.len() >= 2 && s[0] == '0' && s[1] == 'x' {
        s.skip(2)
    } else if s.len() >= 2 && s[0] == '0' && s[1] == 'X' {
        s.skip(2)
    } else {
        s
    }
}

/// What `u8::from_str_radix(t, 16)` accepts.
pub open spec fn parsed_u8_hex(t: Seq<char>) -> Option<u8> {
    match parsed_u16_hex(t) {
        Some(v) => if v < 256 { Some(v as u8) } else { None },
        None => None,
    }
}

/// The payload a list of hex byte strings spells, or the first bad one.
pub open spec fn hex_payload(parts: Seq<Seq<char>>) -> Result<Seq<u8>, Seq<char>>
    decreases parts.len(),
{
    if parts.len() == 0 {
        Ok(Seq::empty())
    } else {
        match hex_payload(parts.drop_last()) {
            Err(e) => Err(e),
            Ok(bytes) => {
                let t = strip_hex_prefix(parts.last());
                match parsed_u8_hex(t) {
                    Some(b) => Ok(bytes.push(b)),
                    None => Err("Bad hex byte '"@ + t + "'"@),
                }
            },
        }
    }
}

/// Parse hex byte strings (`FC`, `0xfc`) into a payload.
pub fn parse_hex_bytes(parts: &Vec<String>) -> (r: Result<Vec<u8>, String>)
    ensures
        match (r, hex_payload(views(parts@))) {
            (Ok(b), Ok(want)) => b@ == want,
            (Err(e), Err(want)) => e@ == want,
            _ => false,
        },
{
    let ghost names = views(parts@);
    let mut out: Vec<u8> = Vec::new();
    let mut i: usize = 0;
    while i < parts.len()
        invariant
            i <= parts.len(),
            names == views(parts@),
            hex_payload(names.take(i as int)) == Ok::<Seq<u8>, Seq<char>>(out@),
        decreases parts.len() - i,
    {
        assert(names.take(i + 1).drop_last() =~= names.take(i as int));
        assert(names.take(i + 1).last() == parts@[i as int]@);
        let cs = chars_of(parts[i].as_str());
        let start: usize = if cs.len() >= 2 && cs[0] == '0' && (cs[1] == 'x' || cs[1] == 'X') { 2 } else { 0 };
        let mut t: Vec<char> = Vec::new();
        let mut k: usize = start;
        while k < cs.len()
            invariant
                start <= k <= cs.len(),
                t@ == cs@.subrange(start as int, k as int),
            decreases cs.len() - k,
        {
            t.push(cs[k]);
            assert(cs@.subrange(start as int, k + 1) =~= cs@.subrange(start as int, k as int).push(cs@[k as int]));
            k = k + 1;
        }
        assert(t@ =~= strip_hex_prefix(cs@));
        match crate::device::snoop::parse_u16_hex(&t) {
            Some(v) if v < 256 => {
                out.push(v as u8);
            },
            _ => {
                let mut m = String::new();
                push_str(&mut m, "Bad hex byte '");
                let mut j: usize = 0;
                while j < t.len()
                    invariant
                        j <= t.len(),
                        m@ == "Bad hex byte '"@ + t@.take(j as int),
                    decreases t.len() - j,
                {
                    push_char(&mut m, t[j]);
                    assert("Bad hex byte '"@ + t@.take(j + 1) =~= ("Bad hex byte '"@ + t@.take(j as int)).push(t@[j as int]));
                    j = j + 1;
                }
                push_str(&mut m, "'");
                assert(t@.take(t.len() as int) =~= t@);
                assert(m@ =~= "Bad hex byte '"@ + t@ + "'"@);
                proof {
                    lemma_hex_payload_sticks(names, i as nat + 1);
                }
                return Err(m);
            },
        }
        i = i + 1;
    }
    assert(names.take(parts.len() as int) =~= names);
    Ok(out)
}

proof fn lemma_hex_payload_sticks(parts: Seq<Seq<char>>, n: nat)
    requires
        n <= parts.len(),
        hex_payload(parts.take(n as int)) is Err,
    ensures
        hex_payload(parts) == hex_payload(parts.take(n as int)),
    decreases parts.len() - n,
{
    if n < parts.len() {
        assert(parts.take(n as int + 1).drop_last() =~= parts.take(n as int));
        lemma_hex_payload_sticks(parts, n + 1);
    } else {
        assert(parts.take(n as int) =~= parts);
    }
}

pub open spec fn too_wide_text() -> Seq<char> {
    "layout declares more slots per layer than the protocol can address"@
}

/// How wide one device layer is: every button, then five slots per knob,
/// refused when a byte cannot address it.
pub fn layout_slots_per_layer(cfg: &DeviceConfig) -> (r: Result<u8, String>)
    requires
        grid_fits(*cfg),
    ensures
        cfg.rows * cfg.columns + cfg.knobs * GESTURES_PER_KNOB <= 255 ==> r == Ok::<u8, String>(
            (cfg.rows * cfg.columns + cfg.knobs * GESTURES_PER_KNOB) as u8,
        ),
        cfg.rows * cfg.columns + cfg.knobs * GESTURES_PER_KNOB > 255 ==> (r matches Err(e) && e@ == too_wide_text()),
{
    let total: u128 = (cfg.rows * cfg.columns) as u128 + (cfg.knobs as u128) * (GESTURES_PER_KNOB as u128);
    if total <= 255 {
        Ok(total as u8)
    } else {
        Err(String::from_str("layout declares more slots per layer than the protocol can address"))
    }
}

/// Why a single-slot sequence bind was refused or is unconfirmed.
#[derive(Debug, Clone, PartialEq, Eq)]
pub enum BindSeqError {
    /// The firmware has no such layer.
    NoSuchLayer { layer: u8 },
    /// An action name does not parse.
    Parse(ParseError),
    /// The sequence cannot be written as one record.
    Record(FdError),
    /// The read-back held no record for the slot.
    NoReadback { key: u8, layer: u8 },
    /// The slot holds something other than what was sent.
    Differs,
}

/// A bind refusal, as the characters it carries.
pub enum BindSeqFault {
    NoSuchLayer { layer: u8 },
    Parse(ParseFault),
    Record(FdError),
    NoReadback { key: u8, layer: u8 },
    Differs,
}

impl View for BindSeqError {
    type V = BindSeqFault;

    open spec fn view(&self) -> BindSeqFault {
        match self {
            BindSeqError::NoSuchLayer { layer } => BindSeqFault::NoSuchLayer { layer: *layer },
            BindSeqError::Parse(e) => BindSeqFault::Parse(e@),
            BindSeqError::Record(e) => BindSeqFault::Record(*e),
            BindSeqError::NoReadback { key, layer } => BindSeqFault::NoReadback { key: *key, layer: *layer },
            BindSeqError::Differs => BindSeqFault::Differs,
        }
    }
}

/// The record a sequence bind writes, with its step count.
pub open spec fn bind_seq_record(key: u8, layer: u8, actions: Seq<Seq<char>>) -> Result<(Seq<u8>, nat), BindSeqFault> {
    if layer >= DEVICE_LAYERS {
        Err(BindSeqFault::NoSuchLayer { layer })
    } else {
        match parsed_steps(actions) {
            Err(e) => Err(BindSeqFault::Parse(e)),
            Ok(steps) => match fd_record(key, layer, steps) {
                Err(e) => Err(BindSeqFault::Record(e)),
                Ok(p) => Ok((p, steps.len())),
            },
        }
    }
}

/// Build the one record `bind-seq` writes: the action names in order, no
/// wait between them, on one of the firmware's three layers.
pub fn bind_seq_packet(key: u8, layer: u8, actions: &Vec<String>) -> (r: Result<(Vec<u8>, usize), BindSeqError>)
    ensures
        match (r, bind_seq_record(key, layer, views(actions@))) {
            (Ok((p, n)), Ok((want, count))) => p@ == want && n == count,
            (Err(e), Err(want)) => e@ == want,
            _ => false,
        },
{
    if layer >= DEVICE_LAYERS {
        return Err(BindSeqError::NoSuchLayer { layer });
    }
    let steps = match parse_sequence(actions) {
        Ok(s) => s,
        Err(e) => return Err(BindSeqError::Parse(e)),
    };
    match build_packet(key, layer, &steps) {
        Ok(p) => Ok((p, steps.len())),
        Err(e) => Err(BindSeqError::Record(e)),
    }
}

/// The read-back has to be at least as wide as the key, or the walk's
/// counter addresses a slot on another layer.
pub fn readback_width(width: Option<u8>, key: u8) -> (r: u8)
    ensures
        r == match width {
            Some(w) => if w > key { w } else { key },
            None => key,
        },
{
    let w = match width {
        Some(w) => w,
        None => key,
    };
    if w > key { w } else { key }
}

/// Whether a table record is the slot `(key, layer)`; `layer` is 0-based.
pub open spec fn is_slot(r: Seq<u8>, key: u8, layer: u8) -> bool {
    parsed_record(r) matches Some(p) && p.0.key_id == key && p.0.layer == layer + 1
}

/// The first record of a table holding the slot.
pub open spec fn first_slot(table: Seq<Seq<u8>>, key: u8, layer: u8) -> Option<int> {
    if exists|i: int| 0 <= i < table.len() && is_slot(table[i], key, layer) && forall|j: int| 0 <= j < i ==> !is_slot(#[trigger] table[j], key, layer) {
        Some(choose|i: int| 0 <= i < table.len() && is_slot(table[i], key, layer) && forall|j: int| 0 <= j < i ==> !is_slot(#[trigger] table[j], key, layer))
    } else {
        None
    }
}

/// Where in a read-back table the slot `(key, layer)` is.
pub fn find_slot(table: &Vec<Vec<u8>>, key: u8, layer: u8) -> (r: Option<usize>)
    requires
        layer < 255,
    ensures
        match (r, first_slot(table@.map_values(|v: Vec<u8>| v@), key, layer)) {
            (Some(i), Some(j)) => i == j,
            (None, None) => true,
            _ => false,
        },
{
    let ghost t = table@.map_values(|v: Vec<u8>| v@);
    let want = SlotAddr { key_id: key, layer: layer + 1 };
    let mut i: usize = 0;
    while i < table.len()
        invariant
            i <= table.len(),
            layer < 255,
            want == (SlotAddr { key_id: key, layer: (layer + 1) as u8 }),
            t == table@.map_values(|v: Vec<u8>| v@),
            forall|j: int| 0 <= j < i ==> !is_slot(#[trigger] t[j], key, layer),
        decreases table.len() - i,
    {
        assert(t[i as int] == table@[i as int]@);
        match parse_record(&table[i]) {
            Some((addr, _)) => {
                if addr.key_id == want.key_id && addr.layer == want.layer {
                    assert(is_slot(t[i as int], key, layer));
                    proof {
                        let c = choose|c: int| 0 <= c < t.len() && is_slot(t[c], key, layer) && forall|j: int| 0 <= j < c ==> !is_slot(#[trigger] t[j], key, layer);
                        if c < i {
                            assert(!is_slot(t[c], key, layer));
                        }
                        if c > i {
                            assert(!is_slot(t[i as int], key, layer));
                        }
                    }
                    return Some(i);
                }
            },
            None => {},
        }
        assert(!is_slot(t[i as int], key, layer));
        i = i + 1;
    }
    None
}

/// What the read-back says of a sequence bind.
pub open spec fn bind_seq_verdict(sent: Seq<u8>, table: Seq<Seq<u8>>, key: u8, layer: u8) -> Result<(), BindSeqFault> {
    match first_slot(table, key, layer) {
        None => Err(BindSeqFault::NoReadback { key, layer }),
        Some(i) => if records_match(sent, table[i]) {
            Ok(())
        } else {
            Err(BindSeqFault::Differs)
        },
    }
}

/// A sequence bind is confirmed only when the slot's first record in the
/// read-back matches what was sent.
pub fn confirm_bind_seq(sent: &Vec<u8>, table: &Vec<Vec<u8>>, key: u8, layer: u8) -> (r: Result<(), BindSeqError>)
    requires
        layer < 255,
    ensures
        match (r, bind_seq_verdict(sent@, table@.map_values(|v: Vec<u8>| v@), key, layer)) {
            (Ok(()), Ok(())) => true,
            (Err(e), Err(want)) => e@ == want,
            _ => false,
        },
{
    match find_slot(table, key, layer) {
        None => Err(BindSeqError::NoReadback { key, layer }),
        Some(i) => {
            assert(table@.map_values(|v: Vec<u8>| v@)[i as int] == table@[i as int]@);
            if record_matches(sent, &table[i]) {
                Ok(())
            } else {
                Err(BindSeqError::Differs)
            }
        },
    }
}

pub open spec fn bind_seq_message(e: BindSeqFault) -> Seq<char> {
    match e {
        BindSeqFault::NoSuchLayer { layer } => "layer "@ + decimal(layer as nat)
            + " does not exist; this firmware has layers 0.."@ + decimal((DEVICE_LAYERS - 1) as nat),
        BindSeqFault::Parse(p) => crate::protocol::parse_error_message(p),
        BindSeqFault::Record(f) => crate::fd::fd_error_message(f),
        BindSeqFault::NoReadback { key, layer } => "no record for key "@ + decimal(key as nat) + " layer "@
            + decimal(layer as nat)
            + " came back; widen the read with --width if the slot sits past this layout, otherwise the write is UNCONFIRMED"@,
        BindSeqFault::Differs => "the device stored something other than what was sent; write UNCONFIRMED"@,
    }
}

impl BindSeqError {
    pub fn message(&self) -> (r: String)
        ensures
            r@ == bind_seq_message(self@),
    {
        match self {
            BindSeqError::NoSuchLayer { layer } => {
                let mut s = String::new();
                push_str(&mut s, "layer ");
                push_decimal(&mut s, *layer as u128);
                push_str(&mut s, " does not exist; this firmware has layers 0..");
                push_decimal(&mut s, (DEVICE_LAYERS - 1) as u128);
                assert(s@ =~= bind_seq_message(self@));
                s
            },
            BindSeqError::Parse(e) => e.message(),
            BindSeqError::Record(e) => e.message(),
            BindSeqError::NoReadback { key, layer } => {
                let mut s = String::new();
                push_str(&mut s, "no record for key ");
                push_decimal(&mut s, *key as u128);
                push_str(&mut s, " layer ");
                push_decimal(&mut s, *layer as u128);
                push_str(
                    &mut s,
                    " came back; widen the read with --width if the slot sits past this layout, otherwise the write is UNCONFIRMED",
                );
                assert(s@ =~= bind_seq_message(self@));
                s
            },
            BindSeqError::Differs => String::from_str(
                "the device stored something other than what was sent; write UNCONFIRMED",
            ),
        }
    }
}

/// Why an upload was refused before the device was touched.
#[derive(Debug, Clone, PartialEq, Eq)]
pub enum UploadError {
    /// The layout does not validate.
    Config(ConfigError),
    /// No buttons declared, so knob bindings would land on key ids 1/2/3.
    NoButtons { rows: usize, columns: usize },
    /// The requested layer is not in the layout.
    LayerOutOfRange { layer: u8, layers: usize },
    /// A layer index the wire cannot carry.
    LayerIndex { layer: usize },
    /// A slot past what a key id byte can address.
    Unaddressable,
    /// A binding the writer refuses.
    Binding(BindingError),
    /// A layer wider than the read-back can walk.
    TooWide,
}

/// An upload refusal, as the characters it carries.
pub enum UploadFault {
    Config(ConfigFault),
    NoButtons { rows: nat, columns: nat },
    LayerOutOfRange { layer: nat, layers: nat },
    LayerIndex { layer: nat },
    Unaddressable,
    Binding(BindingFault),
    TooWide,
}

impl View for UploadError {
    type V = UploadFault;

    open spec fn view(&self) -> UploadFault {
        match self {
            UploadError::Config(e) => UploadFault::Config(e@),
            UploadError::NoButtons { rows, columns } => UploadFault::NoButtons { rows: *rows as nat, columns: *columns as nat },
            UploadError::LayerOutOfRange { layer, layers } => UploadFault::LayerOutOfRange {
                layer: *layer as nat,
                layers: *layers as nat,
            },
            UploadError::LayerIndex { layer } => UploadFault::LayerIndex { layer: *layer as nat },
            UploadError::Unaddressable => UploadFault::Unaddressable,
            UploadError::Binding(e) => UploadFault::Binding(e@),
            UploadError::TooWide => UploadFault::TooWide,
        }
    }
}

/// Records in order, stopping at the first refusal.
pub open spec fn concat_results(rs: Seq<Result<Seq<Seq<u8>>, UploadFault>>) -> Result<Seq<Seq<u8>>, UploadFault>
    decreases rs.len(),
{
    if rs.len() == 0 {
        Ok(Seq::empty())
    } else {
        match concat_results(rs.drop_last()) {
            Err(e) => Err(e),
            Ok(a) => match rs.last() {
                Err(e) => Err(e),
                Ok(b) => Ok(a + b),
            },
        }
    }
}

proof fn lemma_concat_step(rs: Seq<Result<Seq<Seq<u8>>, UploadFault>>, i: int)
    requires
        0 <= i < rs.len(),
    ensures
        concat_results(rs.take(i + 1)) == match concat_results(rs.take(i)) {
            Err(e) => Err(e),
            Ok(a) => match rs[i] {
                Err(e) => Err(e),
                Ok(b) => Ok(a + b),
            },
        },
{
    assert(rs.take(i + 1).drop_last() =~= rs.take(i));
    assert(rs.take(i + 1).last() == rs[i]);
}

proof fn lemma_concat_sticks(rs: Seq<Result<Seq<Seq<u8>>, UploadFault>>, n: nat)
    requires
        n <= rs.len(),
        concat_results(rs.take(n as int)) is Err,
    ensures
        concat_results(rs) == concat_results(rs.take(n as int)),
    decreases rs.len() - n,
{
    if n < rs.len() {
        lemma_concat_step(rs, n as int);
        lemma_concat_sticks(rs, n + 1);
    } else {
        assert(rs.take(n as int) =~= rs);
    }
}

proof fn lemma_concat_all(rs: Seq<Result<Seq<Seq<u8>>, UploadFault>>)
    ensures
        concat_results(rs.take(rs.len() as int)) == concat_results(rs),
{
    assert(rs.take(rs.len() as int) =~= rs);
}

/// Button names of a layer, row by row.
pub open spec fn flat_names(rows: Seq<Vec<String>>) -> Seq<Seq<char>>
    decreases rows.len(),
{
    if rows.len() == 0 {
        Seq::empty()
    } else {
        flat_names(rows.drop_last()) + views(rows.last()@)
    }
}

/// The record a single action name flashes to one slot.
pub open spec fn one_record(name: Seq<char>, key: u8, layer: u8) -> Result<Seq<u8>, BindingFault> {
    match parsed_steps(seq![name]) {
        Err(e) => Err(BindingFault::Parse(e)),
        Ok(steps) => match fd_record(key, layer, steps) {
            Err(e) => Err(BindingFault::Record(e)),
            Ok(p) => Ok(p),
        },
    }
}

proof fn lemma_one_record(s: String, key: u8, layer: u8)
    ensures
        binding_record(Binding::One(s), key, layer) == one_record(s@, key, layer),
{
    let b = Binding::One(s);
    assert(crate::binding::binding_names(b) =~= seq![s@]);
    assert(seq![s@].drop_last() =~= Seq::<Seq<char>>::empty());
    assert(parsed_steps(Seq::<Seq<char>>::empty()) == Ok::<Seq<Step>, ParseFault>(Seq::empty()));
    match parsed_steps(seq![s@]) {
        Ok(steps) => {
            assert(steps.len() == 1);
            assert(Seq::new(steps.len(), |i: int| Step {
                action: steps[i].action,
                delay_ms: if i == 0 { 0u16 } else { crate::binding::binding_delay(b) },
            }) =~= steps);
        },
        Err(_) => {},
    }
}

/// What button `i` of a layer flashes: its name on key id `i + 1`.
pub open spec fn button_result(name: Seq<char>, i: int, layer: u8) -> Result<Seq<Seq<u8>>, UploadFault> {
    if i >= 255 {
        Err(UploadFault::Unaddressable)
    } else {
        match one_record(name, (i + 1) as u8, layer) {
            Err(e) => Err(UploadFault::Binding(e)),
            Ok(p) => Ok(seq![p]),
        }
    }
}

/// What one knob gesture flashes: its binding on the knob's slot for it.
pub open spec fn gesture_result(eb: (KnobEvent, Binding), buttons: nat, knob: nat, layer: u8) -> Result<Seq<Seq<u8>>, UploadFault> {
    let id = knob_key_id(buttons, knob, eb.0);
    if id > 255 {
        Err(UploadFault::Unaddressable)
    } else {
        match binding_record(eb.1, id as u8, layer) {
            Err(e) => Err(UploadFault::Binding(e)),
            Ok(p) => Ok(seq![p]),
        }
    }
}

pub open spec fn gesture_results(k: KnobConfig, buttons: nat, knob: nat, layer: u8) -> Seq<Result<Seq<Seq<u8>>, UploadFault>> {
    knob_bindings(k).map_values(|eb: (KnobEvent, Binding)| gesture_result(eb, buttons, knob, layer))
}

pub open spec fn knob_results(knobs: Seq<KnobConfig>, buttons: nat, layer: u8) -> Seq<Result<Seq<Seq<u8>>, UploadFault>> {
    Seq::new(knobs.len(), |k: int| concat_results(gesture_results(knobs[k], buttons, k as nat, layer)))
}

proof fn lemma_knob_results_at(knobs: Seq<KnobConfig>, buttons: nat, layer: u8, k: int)
    requires
        0 <= k < knobs.len(),
    ensures
        knob_results(knobs, buttons, layer)[k] == concat_results(gesture_results(knobs[k], buttons, k as nat, layer)),
{
}

pub open spec fn button_results(names: Seq<Seq<char>>, layer: u8) -> Seq<Result<Seq<Seq<u8>>, UploadFault>> {
    Seq::new(names.len(), |i: int| button_result(names[i], i, layer))
}

/// Every record one layer flashes: its buttons in row order on key ids
/// 1, 2, ..., then each knob's gestures on the slots after the buttons it
/// lists.
pub open spec fn layer_result(layer: LayerConfig, index: u8) -> Result<Seq<Seq<u8>>, UploadFault> {
    let names = flat_names(layer.buttons@);
    match concat_results(button_results(names, index)) {
        Err(e) => Err(e),
        Ok(b) => match concat_results(knob_results(layer.knobs@, names.len(), index)) {
            Err(e) => Err(e),
            Ok(k) => Ok(b + k),
        },
    }
}

pub open spec fn layer_results(layers: Seq<LayerConfig>) -> Seq<Result<Seq<Seq<u8>>, UploadFault>> {
    Seq::new(layers.len(), |i: int| if i >= 255 {
        Err(UploadFault::LayerIndex { layer: i as nat })
    } else {
        layer_result(layers[i], i as u8)
    })
}

/// The records an upload writes, or the first refusal: the layout must
/// validate, a button-less layout needs `knob_only`, and a requested layer
/// must exist.
pub open spec fn upload_records(cfg: DeviceConfig, layer: Option<u8>, knob_only: bool) -> Result<Seq<Seq<u8>>, UploadFault> {
    match config_problem(cfg) {
        Some(f) => Err(UploadFault::Config(f)),
        None => if cfg.rows * cfg.columns == 0 && (exists|i: int| 0 <= i < cfg.layers@.len()
            && #[trigger] cfg.layers@[i].knobs@.len() > 0) && !knob_only {
            Err(UploadFault::NoButtons { rows: cfg.rows as nat, columns: cfg.columns as nat })
        } else {
            match layer {
                Some(l) => if l >= cfg.layers@.len() {
                    Err(UploadFault::LayerOutOfRange { layer: l as nat, layers: cfg.layers@.len() })
                } else {
                    layer_results(cfg.layers@)[l as int]
                },
                None => concat_results(layer_results(cfg.layers@)),
            }
        },
    }
}

/// The wipe before each slot record, in the same order.
pub open spec fn wipes_of(packets: Seq<Seq<u8>>) -> Seq<Seq<u8>>
    decreases packets.len(),
{
    if packets.len() == 0 {
        Seq::empty()
    } else {
        match parsed_record(packets.last()) {
            Some(p) => wipes_of(packets.drop_last()).push(wipe_record(p.0.key_id, (p.0.layer - 1) as u8)),
            None => wipes_of(packets.drop_last()),
        }
    }
}

/// The slots one layer holds, when a byte can address them.
pub open spec fn slot_width(cfg: DeviceConfig) -> int {
    cfg.rows * cfg.columns + cfg.knobs * GESTURES_PER_KNOB
}

/// Everything an upload sends: the wipes, the records, and the width the
/// read-back walks.
pub open spec fn upload_plan(cfg: DeviceConfig, layer: Option<u8>, knob_only: bool) -> Result<(Seq<Seq<u8>>, Seq<Seq<u8>>, u8), UploadFault> {
    match upload_records(cfg, layer, knob_only) {
        Err(e) => Err(e),
        Ok(p) => if slot_width(cfg) > 255 {
            Err(UploadFault::TooWide)
        } else {
            Ok((wipes_of(p), p, slot_width(cfg) as u8))
        },
    }
}

/// What an upload writes, built before the device is touched.
pub struct UploadPlan {
    /// Cleared first: neither writer clears the bytes it does not set.
    pub wipes: Vec<Vec<u8>>,
    /// The slot records, in write order.
    pub packets: Vec<Vec<u8>>,
    /// The width the read-back walks.
    pub slots_per_layer: u8,
}

pub open spec fn byte_views(v: Seq<Vec<u8>>) -> Seq<Seq<u8>> {
    v.map_values(|x: Vec<u8>| x@)
}

proof fn lemma_byte_views_push(v: Seq<Vec<u8>>, x: Vec<u8>)
    ensures
        byte_views(v.push(x)) == byte_views(v).push(x@),
{
    assert(byte_views(v.push(x)) =~= byte_views(v).push(x@));
}

fn flatten_rows(rows: &Vec<Vec<String>>) -> (r: Vec<String>)
    ensures
        views(r@) == flat_names(rows@),
{
    let mut out: Vec<String> = Vec::new();
    let mut i: usize = 0;
    while i < rows.len()
        invariant
            i <= rows.len(),
            views(out@) == flat_names(rows@.take(i as int)),
        decreases rows.len() - i,
    {
        assert(rows@.take(i + 1).drop_last() =~= rows@.take(i as int));
        assert(rows@.take(i + 1).last() == rows@[i as int]);
        let row = &rows[i];
        let ghost start = views(out@);
        let mut j: usize = 0;
        while j < row.len()
            invariant
                j <= row.len(),
                views(out@) == start + views(row@.take(j as int)),
            decreases row.len() - j,
        {
            let ghost before = out@;
            let c = copy_string(&row[j]);
            out.push(c);
            assert(views(out@) =~= start + views(row@.take(j + 1))) by {
                assert(views(out@) =~= views(before).push(c@));
                assert(views(row@.take(j + 1)) =~= views(row@.take(j as int)).push(row@[j as int]@));
            }
            j = j + 1;
        }
        assert(row@.take(row.len() as int) =~= row@);
        i = i + 1;
    }
    assert(rows@.take(rows.len() as int) =~= rows@);
    out
}

/// Append one result's record to `out`, or say why it failed.
fn push_result(out: &mut Vec<Vec<u8>>, r: Result<Vec<u8>, UploadError>, Ghost(want): Ghost<Result<Seq<Seq<u8>>, UploadFault>>) -> (ok: Result<(), UploadError>)
    requires
        match (r, want) {
            (Ok(p), Ok(w)) => w == seq![p@],
            (Err(e), Err(w)) => e@ == w,
            _ => false,
        },
    ensures
        match want {
            Ok(w) => ok is Ok && byte_views(final(out)@) == byte_views(old(out)@) + w,
            Err(w) => ok matches Err(e) && e@ == w,
        },
{
    match r {
        Ok(p) => {
            let ghost before = out@;
            out.push(p);
            proof {
                lemma_byte_views_push(before, p);
                assert(byte_views(before).push(p@) =~= byte_views(before) + seq![p@]);
            }
            Ok(())
        },
        Err(e) => Err(e),
    }
}

fn knob_packets(knob: &KnobConfig, nb: usize, k: usize, index: u8, out: &mut Vec<Vec<u8>>) -> (r: Result<(), UploadError>)
    requires
        index < 255,
    ensures
        match concat_results(gesture_results(*knob, nb as nat, k as nat, index)) {
            Ok(w) => r is Ok && byte_views(final(out)@) == byte_views(old(out)@) + w,
            Err(w) => r matches Err(e) && e@ == w,
        },
{
    let bs = knob.bindings();
    let ghost grs = gesture_results(*knob, nb as nat, k as nat, index);
    let ghost kstart = byte_views(out@);
    assert(grs.len() == bs@.len());
    let mut j: usize = 0;
    while j < bs.len()
        invariant
            j <= bs.len(),
            index < 255,
            grs.len() == bs@.len(),
            grs == gesture_results(*knob, nb as nat, k as nat, index),
            bs@.map_values(|p: (KnobEvent, &Binding)| (p.0, *p.1)) == knob_bindings(*knob),
            concat_results(grs.take(j as int)) matches Ok(a) && byte_views(out@) == kstart + a,
        decreases bs.len() - j,
    {
        proof {
            lemma_concat_step(grs, j as int);
        }
        let (event, binding) = bs[j];
        assert(knob_bindings(*knob)[j as int] == (event, *binding));
        let res: Result<Vec<u8>, UploadError> = match key_id_for_knob(nb, k, event) {
            None => Err(UploadError::Unaddressable),
            Some(id) => match binding.to_packet(id, index) {
                Ok(p) => Ok(p),
                Err(e) => Err(UploadError::Binding(e)),
            },
        };
        match push_result(out, res, Ghost(grs[j as int])) {
            Ok(()) => {},
            Err(e) => {
                proof {
                    lemma_concat_sticks(grs, j as nat + 1);
                }
                return Err(e);
            },
        }
        assert(byte_views(out@) =~= kstart + match concat_results(grs.take(j + 1)) { Ok(a) => a, Err(_) => Seq::empty() });
        j = j + 1;
    }
    proof {
        lemma_concat_all(grs);
    }
    Ok(())
}

fn layer_packets(layer: &LayerConfig, index: u8, out: &mut Vec<Vec<u8>>) -> (r: Result<(), UploadError>)
    requires
        index < 255,
    ensures
        match layer_result(*layer, index) {
            Ok(w) => r is Ok && byte_views(final(out)@) == byte_views(old(out)@) + w,
            Err(w) => r matches Err(e) && e@ == w,
        },
{
    let names = flatten_rows(&layer.buttons);
    let ghost ns = flat_names(layer.buttons@);
    let ghost brs = button_results(ns, index);
    let ghost start = byte_views(out@);
    assert(brs.len() == names.len());
    let mut i: usize = 0;
    while i < names.len()
        invariant
            i <= names.len(),
            index < 255,
            views(names@) == ns,
            ns == flat_names(layer.buttons@),
            brs == button_results(ns, index),
            brs.len() == names.len(),
            concat_results(brs.take(i as int)) matches Ok(a) && byte_views(out@) == start + a,
        decreases names.len() - i,
    {
        proof {
            lemma_concat_step(brs, i as int);
        }
        assert(ns[i as int] == names@[i as int]@);
        let res: Result<Vec<u8>, UploadError> = match key_id_for_button(i) {
            None => Err(UploadError::Unaddressable),
            Some(id) => {
                let name = copy_string(&names[i]);
                proof {
                    lemma_one_record(name, id, index);
                }
                let b = Binding::One(name);
                match b.to_packet(id, index) {
                    Ok(p) => Ok(p),
                    Err(e) => Err(UploadError::Binding(e)),
                }
            },
        };
        let ghost prefix = out@;
        match push_result(out, res, Ghost(brs[i as int])) {
            Ok(()) => {},
            Err(e) => {
                proof {
                    lemma_concat_sticks(brs, i as nat + 1);
                    assert(concat_results(brs) is Err);
                    assert(layer_result(*layer, index) == concat_results(brs));
                }
                return Err(e);
            },
        }
        assert(byte_views(out@) =~= start + match concat_results(brs.take(i + 1)) { Ok(a) => a, Err(_) => Seq::empty() });
        i = i + 1;
    }
    proof {
        lemma_concat_all(brs);
    }
    let ghost after_buttons = byte_views(out@);
    let nb: usize = names.len();
    let ghost krs = knob_results(layer.knobs@, nb as nat, index);
    let mut k: usize = 0;
    while k < layer.knobs.len()
        invariant
            k <= layer.knobs.len(),
            index < 255,
            nb == ns.len(),
            ns == flat_names(layer.buttons@),
            krs == knob_results(layer.knobs@, nb as nat, index),
            concat_results(button_results(ns, index)) matches Ok(b) && after_buttons == start + b,
            concat_results(krs.take(k as int)) matches Ok(a) && byte_views(out@) == after_buttons + a,
        decreases layer.knobs.len() - k,
    {
        proof {
            lemma_concat_step(krs, k as int);
            lemma_knob_results_at(layer.knobs@, nb as nat, index, k as int);
        }
        let ghost kstart = byte_views(out@);
        match knob_packets(&layer.knobs[k], nb, k, index, out) {
            Ok(()) => {},
            Err(e) => {
                proof {
                    lemma_concat_sticks(krs, k as nat + 1);
                }
                return Err(e);
            },
        }
        assert(byte_views(out@) =~= after_buttons + match concat_results(krs.take(k + 1)) { Ok(a) => a, Err(_) => Seq::empty() });
        k = k + 1;
    }
    proof {
        lemma_concat_all(krs);
    }
    assert(byte_views(out@) =~= start + match layer_result(*layer, index) { Ok(w) => w, Err(_) => Seq::empty() });
    Ok(())
}

fn wipes_for(packets: &Vec<Vec<u8>>) -> (r: Vec<Vec<u8>>)
    ensures
        byte_views(r@) == wipes_of(byte_views(packets@)),
{
    let ghost ps = byte_views(packets@);
    let mut out: Vec<Vec<u8>> = Vec::new();
    let mut i: usize = 0;
    while i < packets.len()
        invariant
            i <= packets.len(),
            ps == byte_views(packets@),
            byte_views(out@) == wipes_of(ps.take(i as int)),
        decreases packets.len() - i,
    {
        assert(ps.take(i + 1).drop_last() =~= ps.take(i as int));
        assert(ps.take(i + 1).last() == packets@[i as int]@);
        match parse_record(&packets[i]) {
            Some((addr, _)) => {
                let w = wipe_packet(addr.key_id, addr.layer - 1);
                let ghost before = out@;
                out.push(w);
                proof {
                    lemma_byte_views_push(before, w);
                }
            },
            None => {},
        }
        i = i + 1;
    }
    assert(ps.take(packets.len() as int) =~= ps);
    out
}

fn all_layer_packets(layers: &Vec<LayerConfig>, packets: &mut Vec<Vec<u8>>) -> (r: Result<(), UploadError>)
    requires
        old(packets)@.len() == 0,
    ensures
        match concat_results(layer_results(layers@)) {
            Ok(w) => r is Ok && byte_views(final(packets)@) == w,
            Err(w) => r matches Err(e) && e@ == w,
        },
{
    let ghost lrs = layer_results(layers@);
    assert(byte_views(packets@) =~= Seq::<Seq<u8>>::empty());
    let mut i: usize = 0;
    while i < layers.len()
        invariant
            i <= layers.len(),
            lrs == layer_results(layers@),
            concat_results(lrs.take(i as int)) matches Ok(a) && byte_views(packets@) == a,
        decreases layers.len() - i,
    {
        proof {
            lemma_concat_step(lrs, i as int);
        }
        if i >= 255 {
            proof {
                lemma_concat_sticks(lrs, i as nat + 1);
            }
            return Err(UploadError::LayerIndex { layer: i });
        }
        match layer_packets(&layers[i], i as u8, packets) {
            Err(e) => {
                proof {
                    lemma_concat_sticks(lrs, i as nat + 1);
                }
                return Err(e);
            },
            Ok(()) => {},
        }
        i = i + 1;
    }
    proof {
        lemma_concat_all(lrs);
    }
    Ok(())
}

/// Build everything an upload writes, before the device is touched: the
/// layout validated, the requested layer (or every layer) turned into slot
/// records, a wipe for each addressed slot, and the read-back width.
pub fn plan_upload(cfg: &DeviceConfig, layer: Option<u8>, knob_only: bool) -> (r: Result<UploadPlan, UploadError>)
    requires
        grid_fits(*cfg),
    ensures
        match (r, upload_plan(*cfg, layer, knob_only)) {
            (Ok(p), Ok((w, ps, width))) => byte_views(p.wipes@) == w && byte_views(p.packets@) == ps
                && p.slots_per_layer == width,
            (Err(e), Err(f)) => e@ == f,
            _ => false,
        },
{
    match cfg.validate() {
        Err(e) => return Err(UploadError::Config(e)),
        Ok(()) => {},
    }
    if cfg.knob_slots_start_at_the_first_button() && !knob_only {
        return Err(UploadError::NoButtons { rows: cfg.rows, columns: cfg.columns });
    }
    let mut packets: Vec<Vec<u8>> = Vec::new();
    let ghost lrs = layer_results(cfg.layers@);
    match layer {
        Some(l) => {
            if (l as usize) >= cfg.layers.len() {
                return Err(UploadError::LayerOutOfRange { layer: l, layers: cfg.layers.len() });
            }
            if l >= 255 {
                return Err(UploadError::LayerIndex { layer: l as usize });
            }
            assert(packets@ =~= Seq::<Vec<u8>>::empty());
            match layer_packets(&cfg.layers[l as usize], l, &mut packets) {
                Err(e) => return Err(e),
                Ok(()) => {},
            }
            assert(byte_views(packets@) =~= match lrs[l as int] { Ok(w) => w, Err(_) => Seq::empty() });
        },
        None => {
            match all_layer_packets(&cfg.layers, &mut packets) {
                Err(e) => return Err(e),
                Ok(()) => {},
            }
        },
    }
    let total: u128 = (cfg.rows * cfg.columns) as u128 + (cfg.knobs as u128) * (GESTURES_PER_KNOB as u128);
    if total > 255 {
        return Err(UploadError::TooWide);
    }
    let wipes = wipes_for(&packets);
    Ok(UploadPlan { wipes, packets, slots_per_layer: total as u8 })
}

pub open spec fn no_buttons_text(file: Seq<char>, rows: nat, columns: nat) -> Seq<char> {
    file + " declares no buttons (rows "@ + decimal(rows) + " x columns "@ + decimal(columns)
        + "), so its knob bindings \nwould be written to key IDs 1/2/3 -- which on a device WITH keys are \nthe keys, silently replacing them. Pass --knob-only if the target \ndevice really has no keys, or set rows/columns to the real layout."@
}

pub open spec fn upload_message(e: UploadFault, file: Seq<char>) -> Seq<char> {
    match e {
        UploadFault::Config(c) => crate::config::config_error_message(c),
        UploadFault::NoButtons { rows, columns } => no_buttons_text(file, rows, columns),
        UploadFault::LayerOutOfRange { layer, layers } => "Layer "@ + decimal(layer) + " out of range (config has "@
            + decimal(layers) + " layer(s))"@,
        UploadFault::LayerIndex { .. } => "layer index out of range"@,
        UploadFault::Unaddressable => "slot key id out of range"@,
        UploadFault::Binding(b) => crate::binding::binding_error_message(b),
        UploadFault::TooWide => too_wide_text(),
    }
}

impl UploadError {
    /// Why the upload of `file` was refused.
    pub fn message(&self, file: &str) -> (r: String)
        ensures
            r@ == upload_message(self@, file@),
    {
        match self {
            UploadError::Config(c) => c.message(),
            UploadError::NoButtons { rows, columns } => {
                let mut s = String::new();
                push_str(&mut s, file);
                push_str(&mut s, " declares no buttons (rows ");
                push_decimal(&mut s, *rows as u128);
                push_str(&mut s, " x columns ");
                push_decimal(&mut s, *columns as u128);
                push_str(
                    &mut s,
                    "), so its knob bindings \nwould be written to key IDs 1/2/3 -- which on a device WITH keys are \nthe keys, silently replacing them. Pass --knob-only if the target \ndevice really has no keys, or set rows/columns to the real layout.",
                );
                assert(s@ =~= upload_message(self@, file@));
                s
            },
            UploadError::LayerOutOfRange { layer, layers } => {
                let mut s = String::new();
                push_str(&mut s, "Layer ");
                push_decimal(&mut s, *layer as u128);
                push_str(&mut s, " out of range (config has ");
                push_decimal(&mut s, *layers as u128);
                push_str(&mut s, " layer(s))");
                assert(s@ =~= upload_message(self@, file@));
                s
            },
            UploadError::LayerIndex { .. } => String::from_str("layer index out of range"),
            UploadError::Unaddressable => String::from_str("slot key id out of range"),
            UploadError::Binding(b) => b.message(),
            UploadError::TooWide => String::from_str("layout declares more slots per layer than the protocol can address"),
        }
    }
}

} // verus!

//! The `0xFD` slot writer -- the vendor's own keymap command.
//!
//! ```text
//! 03 FD <key_id> <layer> <kind> <b5> <len> <entry> <entry> ... 19 entries
//!
//! entry = <delay hi> <delay lo> <value>     delay is 16-bit BIG-endian ms
//! ```
//!
//! `len` counts value BYTES, not entries of the sequence: a keycode is one
//! byte, a media usage two (low then high). A chord is one entry per held
//! modifier (`0xF1 + HID bit`) followed by the key, and the step's delay
//! belongs to the first of them. Only keyboard records chain; a media
//! record holds one action, and mouse actions have no measured encoding.

use vstd::prelude::*;
use crate::firmware::{FD_CMD, FD_ENTRY_LEN, FD_HEADER_LEN, FD_MAX_ENTRIES, FD_MOD_ENTRY_BASE, REPORT_ID, REPORT_LEN};
use crate::protocol::{Action, ParseError, lift, parse_action, ParseFault};
use crate::text::{push_str, push_decimal, decimal};

verus! {

/// The modifier entry for HID modifier bit `bit`.
pub fn modifier_entry(bit: u8) -> (r: u8)
    requires
        bit < 8,
    ensures
        r == FD_MOD_ENTRY_BASE + bit,
{
    FD_MOD_ENTRY_BASE + bit
}

/// What a record declares itself to hold.
#[derive(Debug, Clone, Copy, PartialEq, Eq, Structural)]
pub enum Kind {
    Keyboard,
    Media,
}

/// The kind byte a record carries.
pub open spec fn kind_byte(k: Kind) -> u8 {
    match k {
        Kind::Keyboard => 1,
        Kind::Media => 2,
    }
}

/// The record kind an action needs, or `None` for mouse actions.
pub open spec fn kind_of(a: Action) -> Option<Kind> {
    match a {
        Action::Key { .. } => Some(Kind::Keyboard),
        Action::Media(_) => Some(Kind::Media),
        _ => None,
    }
}

/// The kind's name, for messages.
pub open spec fn kind_name(k: Kind) -> Seq<char> {
    match k {
        Kind::Keyboard => "keyboard"@,
        Kind::Media => "media"@,
    }
}

impl Kind {
    pub fn byte(&self) -> (r: u8)
        ensures
            r == kind_byte(*self),
    {
        match self {
            Kind::Keyboard => 1,
            Kind::Media => 2,
        }
    }

    fn of(action: &Action) -> (r: Option<Kind>)
        ensures
            r == kind_of(*action),
    {
        match action {
            Action::Key { .. } => Some(Kind::Keyboard),
            Action::Media(_) => Some(Kind::Media),
            _ => None,
        }
    }

    fn describe(&self) -> (r: &'static str)
        ensures
            r@ == kind_name(*self),
    {
        match self {
            Kind::Keyboard => "keyboard",
            Kind::Media => "media",
        }
    }
}

/// One action and how long to wait before running it.
#[derive(Debug, Clone, Copy, PartialEq, Eq, Structural)]
pub struct Step {
    pub action: Action,
    /// Milliseconds to wait before this step.
    pub delay_ms: u16,
}

impl Step {
    pub fn now(action: Action) -> (r: Step)
        ensures
            r == (Step { action, delay_ms: 0 }),
    {
        Step { action, delay_ms: 0 }
    }
}

/// The modifier entries for bits `0..n` of `m`, in HID bit order.
pub open spec fn modifier_entries(m: u8, n: nat) -> Seq<u8>
    decreases n,
{
    if n == 0 {
        Seq::empty()
    } else {
        let b = (n - 1) as u8;
        modifier_entries(m, (n - 1) as nat) + if m & (1u8 << b) != 0 {
            seq![(FD_MOD_ENTRY_BASE + b) as u8]
        } else {
            Seq::empty()
        }
    }
}

/// The value bytes one action occupies, in wire order.
pub open spec fn value_bytes(a: Action) -> Seq<u8> {
    match a {
        Action::Key { modifiers, code } => modifier_entries(modifiers, 8).push(code),
        Action::Media(usage) => seq![(usage % 256) as u8, (usage / 256) as u8],
        _ => Seq::empty(),
    }
}

/// The entries one step contributes: its delay rides on the first.
pub open spec fn step_entries(s: Step) -> Seq<(u16, u8)> {
    let vb = value_bytes(s.action);
    Seq::new(vb.len(), |i: int| (if i == 0 { s.delay_ms } else { 0u16 }, vb[i]))
}

/// Every entry of a sequence, in order.
pub open spec fn entries(steps: Seq<Step>) -> Seq<(u16, u8)>
    decreases steps.len(),
{
    if steps.len() == 0 {
        Seq::empty()
    } else {
        entries(steps.drop_last()) + step_entries(steps.last())
    }
}

/// Why a sequence cannot be written.
#[derive(Debug, Clone, Copy, PartialEq, Eq, Structural)]
pub enum FdError {
    /// A mouse action: no measured `0xFD` encoding.
    NoMouseEncoding,
    /// Keyboard and media actions in one record.
    MixedKinds { first: Kind, then: Kind },
    /// No action at all.
    Empty,
    /// More than one media action; the device keeps one.
    MediaChain { count: usize },
    /// More entries than a record holds.
    TooManyEntries { needed: usize },
}

/// The kind a sequence's prefix commits to, or the first refusal.
pub open spec fn plan_state(steps: Seq<Step>) -> Result<Option<Kind>, FdError>
    decreases steps.len(),
{
    if steps.len() == 0 {
        Ok(None)
    } else {
        match plan_state(steps.drop_last()) {
            Err(e) => Err(e),
            Ok(first) => match kind_of(steps.last().action) {
                None => Err(FdError::NoMouseEncoding),
                Some(this) => match first {
                    None => Ok(Some(this)),
                    Some(k) => if k == this {
                        Ok(Some(k))
                    } else {
                        Err(FdError::MixedKinds { first: k, then: this })
                    },
                },
            },
        }
    }
}

/// The single record kind a sequence can be written as.
pub open spec fn plan(steps: Seq<Step>) -> Result<Kind, FdError> {
    match plan_state(steps) {
        Err(e) => Err(e),
        Ok(None) => Err(FdError::Empty),
        Ok(Some(k)) => Ok(k),
    }
}

/// Byte `i` of a record with these header fields and entries.
pub open spec fn record_byte(key: u8, layer: u8, kind: u8, count: nat, e: Seq<(u16, u8)>, i: int) -> u8 {
    if i == 0 {
        REPORT_ID
    } else if i == 1 {
        FD_CMD
    } else if i == 2 {
        key
    } else if i == 3 {
        (layer + 1) as u8
    } else if i == 4 {
        kind
    } else if i == 5 {
        0
    } else if i == 6 {
        count as u8
    } else if 7 <= i && (i - 7) / 3 < e.len() {
        let entry = e[(i - 7) / 3];
        if (i - 7) % 3 == 0 {
            (entry.0 / 256) as u8
        } else if (i - 7) % 3 == 1 {
            (entry.0 % 256) as u8
        } else {
            entry.1
        }
    } else {
        0
    }
}

/// The 64-byte record for a header and its entries.
pub open spec fn record(key: u8, layer: u8, kind: u8, e: Seq<(u16, u8)>) -> Seq<u8> {
    Seq::new(REPORT_LEN as nat, |i: int| record_byte(key, layer, kind, e.len(), e, i))
}

/// What `build_packet` produces for a sequence: the record, or the first
/// reason it cannot be written.
pub open spec fn fd_record(key: u8, layer: u8, steps: Seq<Step>) -> Result<Seq<u8>, FdError> {
    match plan(steps) {
        Err(e) => Err(e),
        Ok(kind) => {
            let e = entries(steps);
            if kind == Kind::Media && steps.len() > 1 {
                Err(FdError::MediaChain { count: steps.len() as usize })
            } else if e.len() > FD_MAX_ENTRIES {
                Err(FdError::TooManyEntries { needed: e.len() as usize })
            } else {
                Ok(record(key, layer, kind_byte(kind), e))
            }
        },
    }
}

/// The value bytes of one action.
fn value_bytes_of(action: &Action) -> (r: Vec<u8>)
    ensures
        r@ == value_bytes(*action),
{
    match action {
        Action::Key { modifiers, code } => {
            let mut out: Vec<u8> = Vec::new();
            let mut bit: u8 = 0;
            while bit < 8
                invariant
                    bit <= 8,
                    out@ == modifier_entries(*modifiers, bit as nat),
                decreases 8 - bit,
            {
                if *modifiers & (1u8 << bit) != 0 {
                    out.push(modifier_entry(bit));
                }
                bit = bit + 1;
            }
            out.push(*code);
            out
        },
        Action::Media(usage) => {
            let low: u8 = (*usage % 256) as u8;
            let high: u8 = (*usage / 256) as u8;
            let r = vec![low, high];
            assert(r@ =~= value_bytes(*action));
            r
        },
        _ => Vec::new(),
    }
}

/// The single record kind a sequence can be written as.
fn plan_kind(steps: &Vec<Step>) -> (r: Result<Kind, FdError>)
    ensures
        r == plan(steps@),
{
    let mut kind: Option<Kind> = None;
    let mut i: usize = 0;
    while i < steps.len()
        invariant
            i <= steps.len(),
            plan_state(steps@.take(i as int)) == Ok::<Option<Kind>, FdError>(kind),
        decreases steps.len() - i,
    {
        assert(steps@.take(i + 1).drop_last() =~= steps@.take(i as int));
        assert(steps@.take(i + 1).last() == steps@[i as int]);
        let this = match Kind::of(&steps[i].action) {
            Some(k) => k,
            None => {
                proof {
                    lemma_plan_state_sticks(steps@, i as nat + 1);
                }
                return Err(FdError::NoMouseEncoding);
            },
        };
        match kind {
            None => {
                kind = Some(this);
            },
            Some(first) => {
                if first != this {
                    proof {
                        lemma_plan_state_sticks(steps@, i as nat + 1);
                    }
                    return Err(FdError::MixedKinds { first, then: this });
                }
            },
        }
        i = i + 1;
    }
    assert(steps@.take(steps.len() as int) =~= steps@);
    match kind {
        None => Err(FdError::Empty),
        Some(k) => Ok(k),
    }
}

/// Once a prefix is refused, the whole sequence is refused the same way.
proof fn lemma_plan_state_sticks(steps: Seq<Step>, n: nat)
    requires
        n <= steps.len(),
        plan_state(steps.take(n as int)) is Err,
    ensures
        plan_state(steps) == plan_state(steps.take(n as int)),
    decreases steps.len() - n,
{
    if n < steps.len() {
        let t = steps.take(n as int + 1);
        assert(t.drop_last() =~= steps.take(n as int));
        lemma_plan_state_sticks(steps, n + 1);
    } else {
        assert(steps.take(n as int) =~= steps);
    }
}

/// Every entry of a sequence.
fn flatten(steps: &Vec<Step>) -> (r: Vec<(u16, u8)>)
    ensures
        r@ == entries(steps@),
{
    let mut out: Vec<(u16, u8)> = Vec::new();
    let mut i: usize = 0;
    while i < steps.len()
        invariant
            i <= steps.len(),
            out@ == entries(steps@.take(i as int)),
        decreases steps.len() - i,
    {
        let step = steps[i];
        let vb = value_bytes_of(&step.action);
        let ghost before = out@;
        let mut j: usize = 0;
        while j < vb.len()
            invariant
                j <= vb.len(),
                vb@ == value_bytes(step.action),
                out@ == before + step_entries(step).take(j as int),
            decreases vb.len() - j,
        {
            let delay: u16 = if j == 0 { step.delay_ms } else { 0 };
            out.push((delay, vb[j]));
            assert(step_entries(step).take(j + 1) =~= step_entries(step).take(j as int).push((delay, vb@[j as int])));
            j = j + 1;
        }
        assert(step_entries(step).take(vb.len() as int) =~= step_entries(step));
        assert(steps@.take(i + 1).drop_last() =~= steps@.take(i as int));
        assert(steps@.take(i + 1).last() == step);
        i = i + 1;
    }
    assert(steps@.take(steps.len() as int) =~= steps@);
    out
}

/// Build the 64-byte `0xFD` record binding one slot to a sequence.
///
/// `layer` is 0-based here and 1-based on the wire.
pub fn build_packet(key_id: u8, layer: u8, steps: &Vec<Step>) -> (r: Result<Vec<u8>, FdError>)
    requires
        layer < 255,
    ensures
        match (r, fd_record(key_id, layer, steps@)) {
            (Ok(p), Ok(want)) => p@ == want,
            (Err(e), Err(want)) => e == want,
            _ => false,
        },
{
    let kind = match plan_kind(steps) {
        Ok(k) => k,
        Err(e) => return Err(e),
    };
    let ents = flatten(steps);
    if kind == Kind::Media && steps.len() > 1 {
        return Err(FdError::MediaChain { count: steps.len() });
    }
    if ents.len() > FD_MAX_ENTRIES {
        return Err(FdError::TooManyEntries { needed: ents.len() });
    }
    let kb: u8 = kind.byte();
    let count: u8 = ents.len() as u8;
    let mut packet: Vec<u8> = vec![0u8; REPORT_LEN];
    packet[0] = REPORT_ID;
    packet[1] = FD_CMD;
    packet[2] = key_id;
    packet[3] = layer + 1;
    packet[4] = kb;
    packet[5] = 0;
    packet[6] = count;
    let ghost e = ents@;
    assert(packet@ =~= Seq::new(REPORT_LEN as nat, |i: int| record_byte(key_id, layer, kb, e.len(), e.take(0), i)));
    let mut j: usize = 0;
    while j < ents.len()
        invariant
            j <= ents.len(),
            ents.len() <= FD_MAX_ENTRIES,
            e == ents@,
            packet@ == Seq::new(REPORT_LEN as nat, |i: int| record_byte(key_id, layer, kb, e.len(), e.take(j as int), i)),
        decreases ents.len() - j,
    {
        let (delay, value) = ents[j];
        let at: usize = FD_HEADER_LEN + j * FD_ENTRY_LEN;
        packet[at] = (delay / 256) as u8;
        packet[at + 1] = (delay % 256) as u8;
        packet[at + 2] = value;
        assert(packet@ =~= Seq::new(REPORT_LEN as nat, |i: int| record_byte(key_id, layer, kb, e.len(), e.take(j + 1), i))) by {
            assert forall|i: int| 0 <= i < REPORT_LEN implies #[trigger] packet@[i] == record_byte(key_id, layer, kb, e.len(), e.take(j + 1), i) by {
                if 7 <= i && (i - 7) / 3 < j {
                    assert(e.take(j + 1)[(i - 7) / 3] == e.take(j as int)[(i - 7) / 3]);
                }
            }
        }
        j = j + 1;
    }
    assert(e.take(e.len() as int) =~= e);
    assert(packet@ =~= record(key_id, layer, kb, e));
    Ok(packet)
}

/// The wipe record: every entry zeroed, sent before a shorter binding so
/// the tail of a longer one cannot linger in the slot.
pub open spec fn wipe_record(key: u8, layer: u8) -> Seq<u8> {
    Seq::new(REPORT_LEN as nat, |i: int|
        if i == 0 { REPORT_ID }
        else if i == 1 { FD_CMD }
        else if i == 2 { key }
        else if i == 3 { (layer + 1) as u8 }
        else if i == 4 { 1u8 }
        else if i == 6 { (FD_MAX_ENTRIES - 1) as u8 }
        else { 0u8 })
}

pub fn wipe_packet(key_id: u8, layer: u8) -> (r: Vec<u8>)
    requires
        layer < 255,
    ensures
        r@ == wipe_record(key_id, layer),
{
    let mut packet: Vec<u8> = vec![0u8; REPORT_LEN];
    packet[0] = REPORT_ID;
    packet[1] = FD_CMD;
    packet[2] = key_id;
    packet[3] = layer + 1;
    packet[4] = kind_keyboard_byte();
    packet[6] = (FD_MAX_ENTRIES - 1) as u8;
    assert(packet@ =~= wipe_record(key_id, layer));
    packet
}

fn kind_keyboard_byte() -> (r: u8)
    ensures
        r == 1,
{
    Kind::Keyboard.byte()
}

/// How many bytes of a record carry the binding: the header plus `len`
/// entries, when that fits in the record.
pub open spec fn significant_len(record: Seq<u8>) -> Option<int> {
    if record.len() > 6 {
        let end = FD_HEADER_LEN + record[6] * FD_ENTRY_LEN;
        if end <= record.len() {
            Some(end as int)
        } else {
            None
        }
    } else {
        None
    }
}

fn significant_len_of(record: &Vec<u8>) -> (r: Option<usize>)
    ensures
        match significant_len(record@) {
            Some(end) => r == Some(end as usize),
            None => r.is_none(),
        },
{
    if record.len() <= 6 {
        return None;
    }
    let end: usize = FD_HEADER_LEN + (record[6] as usize) * FD_ENTRY_LEN;
    if end <= record.len() {
        Some(end)
    } else {
        None
    }
}

/// Does a read-back carry the binding that was sent? Byte 1 (the command,
/// `0xFD` out and `0xFA` back) and byte 5 (device-owned) are not compared.
pub open spec fn records_match(sent: Seq<u8>, readback: Seq<u8>) -> bool {
    match significant_len(sent) {
        None => false,
        Some(end) => {
            &&& significant_len(readback) == Some(end)
            &&& sent[0] == readback[0]
            &&& sent.subrange(2, 5) == readback.subrange(2, 5)
            &&& sent.subrange(6, end) == readback.subrange(6, end)
        },
    }
}

fn same_bytes(a: &Vec<u8>, b: &Vec<u8>, lo: usize, hi: usize) -> (r: bool)
    requires
        lo <= hi <= a.len(),
        hi <= b.len(),
    ensures
        r == (a@.subrange(lo as int, hi as int) == b@.subrange(lo as int, hi as int)),
{
    let mut i: usize = lo;
    while i < hi
        invariant
            lo <= i <= hi,
            hi <= a.len(),
            hi <= b.len(),
            forall|k: int| lo <= k < i ==> a@[k] == b@[k],
        decreases hi - i,
    {
        if a[i] != b[i] {
            assert(a@.subrange(lo as int, hi as int)[i - lo] != b@.subrange(lo as int, hi as int)[i - lo]);
            return false;
        }
        i = i + 1;
    }
    assert(a@.subrange(lo as int, hi as int) =~= b@.subrange(lo as int, hi as int));
    true
}

/// Does the record read back off the device carry the binding we sent?
pub fn record_matches(sent: &Vec<u8>, readback: &Vec<u8>) -> (r: bool)
    ensures
        r == records_match(sent@, readback@),
{
    let end = match significant_len_of(sent) {
        Some(end) => end,
        None => return false,
    };
    match significant_len_of(readback) {
        Some(e2) => {
            if e2 != end {
                return false;
            }
        },
        None => return false,
    }
    sent[0] == readback[0] && same_bytes(sent, readback, 2, 5) && same_bytes(sent, readback, 6, end)
}

/// What `parse_sequence` yields for a list of action names.
pub open spec fn parsed_steps(specs: Seq<Seq<char>>) -> Result<Seq<Step>, ParseFault>
    decreases specs.len(),
{
    if specs.len() == 0 {
        Ok(Seq::empty())
    } else {
        match parsed_steps(specs.drop_last()) {
            Err(e) => Err(e),
            Ok(steps) => match parse_action(specs.last()) {
                Err(e) => Err(e),
                Ok(a) => Ok(steps.push(Step { action: a, delay_ms: 0 })),
            },
        }
    }
}

/// The names of a list of strings.
pub open spec fn views(specs: Seq<String>) -> Seq<Seq<char>> {
    specs.map_values(|s: String| s@)
}

/// Parse a list of action names into steps, all with no delay. The first
/// name that does not parse is the error.
pub fn parse_sequence(specs: &Vec<String>) -> (r: Result<Vec<Step>, ParseError>)
    ensures
        match (r, parsed_steps(views(specs@))) {
            (Ok(steps), Ok(want)) => steps@ == want,
            (Err(e), Err(want)) => e@ == want,
            _ => false,
        },
{
    let mut out: Vec<Step> = Vec::new();
    let mut i: usize = 0;
    while i < specs.len()
        invariant
            i <= specs.len(),
            parsed_steps(views(specs@).take(i as int)) == Ok::<Seq<Step>, ParseFault>(out@),
        decreases specs.len() - i,
    {
        assert(views(specs@).take(i + 1).drop_last() =~= views(specs@).take(i as int));
        assert(views(specs@).take(i + 1).last() == specs@[i as int]@);
        match Action::parse(specs[i].as_str()) {
            Ok(a) => {
                out.push(Step::now(a));
            },
            Err(e) => {
                proof {
                    lemma_parsed_steps_sticks(views(specs@), i as nat + 1);
                }
                return Err(e);
            },
        }
        i = i + 1;
    }
    assert(views(specs@).take(specs.len() as int) =~= views(specs@));
    Ok(out)
}

proof fn lemma_parsed_steps_sticks(specs: Seq<Seq<char>>, n: nat)
    requires
        n <= specs.len(),
        parsed_steps(specs.take(n as int)) is Err,
    ensures
        parsed_steps(specs) == parsed_steps(specs.take(n as int)),
    decreases specs.len() - n,
{
    if n < specs.len() {
        assert(specs.take(n as int + 1).drop_last() =~= specs.take(n as int));
        lemma_parsed_steps_sticks(specs, n + 1);
    } else {
        assert(specs.take(n as int) =~= specs);
    }
}

/// The sentence explaining a refusal.
pub open spec fn fd_error_message(e: FdError) -> Seq<char> {
    match e {
        FdError::NoMouseEncoding =>
            "the 0xFD writer has no measured encoding for mouse actions; their bytes do not sit where the 0xFE layout puts them (button at byte 12, wheel at byte 21). Bind mouse actions with the 0xFE path instead"@,
        FdError::MixedKinds { first, then } =>
            "one slot record holds one kind of action, but this sequence mixes "@ + kind_name(first) + " and "@
                + kind_name(then) + "; split it across gestures"@,
        FdError::Empty => "an empty sequence binds nothing; give at least one action"@,
        FdError::MediaChain { count } =>
            "this device stores one media action per slot: writing "@ + decimal(count as nat)
                + " reads back as one, with the rest dropped. Use keyboard actions for a sequence, or split these across gestures"@,
        FdError::TooManyEntries { needed } =>
            "this sequence needs "@ + decimal(needed as nat) + " entries but one slot holds "@ + decimal(
                FD_MAX_ENTRIES as nat,
            )
                + "; a truncated sequence would flash as a success and run the wrong thing. Note a chord costs one entry per modifier plus one for the key"@,
    }
}

impl FdError {
    /// The refusal as a sentence.
    pub fn message(&self) -> (r: String)
        ensures
            r@ == fd_error_message(*self),
    {
        let mut out = String::new();
        match self {
            FdError::NoMouseEncoding => {
                push_str(&mut out, "the 0xFD writer has no measured encoding for mouse actions; their bytes do not sit where the 0xFE layout puts them (button at byte 12, wheel at byte 21). Bind mouse actions with the 0xFE path instead");
            },
            FdError::MixedKinds { first, then } => {
                push_str(&mut out, "one slot record holds one kind of action, but this sequence mixes ");
                push_str(&mut out, first.describe());
                push_str(&mut out, " and ");
                push_str(&mut out, then.describe());
                push_str(&mut out, "; split it across gestures");
            },
            FdError::Empty => {
                push_str(&mut out, "an empty sequence binds nothing; give at least one action");
            },
            FdError::MediaChain { count } => {
                push_str(&mut out, "this device stores one media action per slot: writing ");
                push_decimal(&mut out, *count as u128);
                push_str(&mut out, " reads back as one, with the rest dropped. Use keyboard actions for a sequence, or split these across gestures");
            },
            FdError::TooManyEntries { needed } => {
                push_str(&mut out, "this sequence needs ");
                push_decimal(&mut out, *needed as u128);
                push_str(&mut out, " entries but one slot holds ");
                push_decimal(&mut out, FD_MAX_ENTRIES as u128);
                push_str(&mut out, "; a truncated sequence would flash as a success and run the wrong thing. Note a chord costs one entry per modifier plus one for the key");
            },
        }
        out
    }
}

/// A written record's significant bytes: the header and every entry it
/// declares, which always fit the report.
proof fn lemma_record_extent(key: u8, layer: u8, steps: Seq<Step>, p: Seq<u8>)
    requires
        fd_record(key, layer, steps) == Ok::<Seq<u8>, FdError>(p),
    ensures
        p.len() == REPORT_LEN,
        p[6] as int == entries(steps).len(),
        significant_len(p) == Some(FD_HEADER_LEN + entries(steps).len() * FD_ENTRY_LEN),
        FD_HEADER_LEN + entries(steps).len() * FD_ENTRY_LEN <= REPORT_LEN,
{
    let e = entries(steps);
    assert(e.len() <= FD_MAX_ENTRIES);
    assert(p[6] == record_byte(key, layer, p[4], e.len(), e, 6));
}

/// A read-back agrees with a written record `p` everywhere the binding is
/// carried: the same length, and every byte but 1 (the command) and 5
/// (device-owned) equal.
pub open spec fn echoes(p: Seq<u8>, back: Seq<u8>) -> bool {
    &&& back.len() == p.len()
    &&& forall|i: int| 0 <= i < p.len() && i != 1 && i != 5 ==> #[trigger] back[i] == p[i]
}

/// The bytes of a written record `p` a read-back is compared on: byte 0,
/// bytes 2 to 4, and byte 6 through the last declared entry.
pub open spec fn compared_byte(p: Seq<u8>, i: int) -> bool {
    i == 0 || (2 <= i < 5) || (6 <= i < FD_HEADER_LEN + p[6] * FD_ENTRY_LEN)
}

/// The read-back of what was written is confirmed: whatever the device
/// puts in bytes 1 and 5, a read-back that holds the record's other bytes
/// matches it.
pub proof fn lemma_readback_of_written_matches(key: u8, layer: u8, steps: Seq<Step>, p: Seq<u8>, back: Seq<u8>)
    requires
        fd_record(key, layer, steps) == Ok::<Seq<u8>, FdError>(p),
        echoes(p, back),
    ensures
        records_match(p, back),
{
    lemma_record_extent(key, layer, steps, p);
    let end = FD_HEADER_LEN + entries(steps).len() * FD_ENTRY_LEN;
    assert(back[6] == p[6]);
    assert(significant_len(back) == Some(end as int));
    assert(back[0] == p[0]);
    assert(p.subrange(2, 5) =~= back.subrange(2, 5));
    assert(p.subrange(6, end as int) =~= back.subrange(6, end as int));
}

/// Every compared byte matters: in a read-back that matches the written
/// record, changing any one compared byte makes it no longer match.
pub proof fn lemma_changed_binding_byte_is_rejected(key: u8, layer: u8, steps: Seq<Step>, p: Seq<u8>, back: Seq<u8>, i: int, v: u8)
    requires
        fd_record(key, layer, steps) == Ok::<Seq<u8>, FdError>(p),
        echoes(p, back),
        compared_byte(p, i),
        v != back[i],
    ensures
        !records_match(p, back.update(i, v)),
{
    lemma_record_extent(key, layer, steps, p);
    let r = back.update(i, v);
    let end = FD_HEADER_LEN + entries(steps).len() * FD_ENTRY_LEN;
    assert(i < end);
    assert(back[i] == p[i]);
    if records_match(p, r) {
        if i == 0 {
        } else if i < 5 {
            assert(p.subrange(2, 5)[i - 2] != r.subrange(2, 5)[i - 2]);
        } else {
            assert(significant_len(r) == Some(end as int));
            assert(p.subrange(6, end as int)[i - 6] != r.subrange(6, end as int)[i - 6]);
        }
    }
}

/// An empty read-back never confirms a record, and neither does one that
/// declares a different number of entries.
pub proof fn lemma_short_readback_is_rejected(key: u8, layer: u8, steps: Seq<Step>, p: Seq<u8>, back: Seq<u8>)
    requires
        fd_record(key, layer, steps) == Ok::<Seq<u8>, FdError>(p),
        back.len() == 0 || (back.len() > 6 && back[6] != p[6]),
    ensures
        !records_match(p, back),
{
    lemma_record_extent(key, layer, steps, p);
}

} // verus!

//! Actions, gestures and where they live in the slot table.
//!
//! An action is what one slot entry makes the device send: a keystroke with
//! its held modifiers, a consumer-page (media) usage, a mouse click or a
//! wheel notch. Action names are parsed from the layout's vocabulary:
//! a key, media or mouse name, optionally preceded by modifier names joined
//! with `-` or `+` (`cmd-c`, `ctrl+shift+esc`).

use vstd::prelude::*;
use crate::text::{push_char, push_str};

verus! {

/// One action a slot can carry.
#[derive(Debug, Clone, Copy, PartialEq, Eq, Structural)]
pub enum Action {
    /// A HID keyboard usage, with a bitmask of held modifiers in HID bit
    /// order: ctrl, shift, alt, cmd, then their right-hand twins.
    Key { modifiers: u8, code: u8 },
    /// A 16-bit HID consumer-page usage.
    Media(u16),
    /// A mouse button mask: 1 left, 2 right, 4 middle.
    MouseClick { button: u8 },
    /// One wheel notch, up (positive) or down (negative).
    MouseWheel { delta: i8 },
}

/// The five gestures of a knob, in slot order.
#[derive(Debug, Clone, Copy, PartialEq, Eq, Structural)]
pub enum KnobEvent {
    RotateCCW,
    Press,
    RotateCW,
    HoldTwistL,
    HoldTwistR,
}

/// A gesture's position among a knob's slots.
pub open spec fn ordinal(e: KnobEvent) -> nat {
    match e {
        KnobEvent::RotateCCW => 0,
        KnobEvent::Press => 1,
        KnobEvent::RotateCW => 2,
        KnobEvent::HoldTwistL => 3,
        KnobEvent::HoldTwistR => 4,
    }
}

/// The layout key a gesture is written under.
pub open spec fn event_name(e: KnobEvent) -> Seq<char> {
    match e {
        KnobEvent::RotateCCW => "ccw"@,
        KnobEvent::Press => "press"@,
        KnobEvent::RotateCW => "cw"@,
        KnobEvent::HoldTwistL => "hold_twist_l"@,
        KnobEvent::HoldTwistR => "hold_twist_r"@,
    }
}

impl KnobEvent {
    pub fn ordinal(&self) -> (r: u8)
        ensures
            r as nat == ordinal(*self),
    {
        match self {
            KnobEvent::RotateCCW => 0,
            KnobEvent::Press => 1,
            KnobEvent::RotateCW => 2,
            KnobEvent::HoldTwistL => 3,
            KnobEvent::HoldTwistR => 4,
        }
    }

    pub fn as_str(&self) -> (r: &'static str)
        ensures
            r@ == event_name(*self),
    {
        match self {
            KnobEvent::RotateCCW => "ccw",
            KnobEvent::Press => "press",
            KnobEvent::RotateCW => "cw",
            KnobEvent::HoldTwistL => "hold_twist_l",
            KnobEvent::HoldTwistR => "hold_twist_r",
        }
    }
}

/// Every gesture, in slot order.
pub open spec fn all_events() -> Seq<KnobEvent> {
    seq![
        KnobEvent::RotateCCW,
        KnobEvent::Press,
        KnobEvent::RotateCW,
        KnobEvent::HoldTwistL,
        KnobEvent::HoldTwistR,
    ]
}

pub fn knob_events() -> (r: Vec<KnobEvent>)
    ensures
        r@ == all_events(),
{
    let r = vec![
        KnobEvent::RotateCCW,
        KnobEvent::Press,
        KnobEvent::RotateCW,
        KnobEvent::HoldTwistL,
        KnobEvent::HoldTwistR,
    ];
    assert(r@ =~= all_events());
    r
}

/// The slot a knob gesture lives in: knob slots continue the key-id space
/// after the buttons, five per knob, starting at 1.
pub open spec fn knob_key_id(button_count: nat, knob: nat, e: KnobEvent) -> int {
    (button_count + knob * 5 + ordinal(e) + 1) as int
}

/// Key id of a knob gesture, or `None` when it is past what a byte can
/// address.
pub fn key_id_for_knob(button_count: usize, knob: usize, e: KnobEvent) -> (r: Option<u8>)
    ensures
        knob_key_id(button_count as nat, knob as nat, e) <= 255 ==> r == Some(
            knob_key_id(button_count as nat, knob as nat, e) as u8,
        ),
        knob_key_id(button_count as nat, knob as nat, e) > 255 ==> r.is_none(),
{
    if button_count > 255 || knob > 255 {
        return None;
    }
    let id: usize = button_count + knob * 5 + (e.ordinal() as usize) + 1;
    if id <= 255 {
        Some(id as u8)
    } else {
        None
    }
}

/// Key id of the button at `index` (0-based, row-major): buttons take
/// key ids 1, 2, 3, ...
pub fn key_id_for_button(index: usize) -> (r: Option<u8>)
    ensures
        index < 255 ==> r == Some((index + 1) as u8),
        index >= 255 ==> r.is_none(),
{
    if index < 255 {
        Some((index + 1) as u8)
    } else {
        None
    }
}

/// What a name denotes on its own.
#[derive(Debug, Clone, Copy, PartialEq, Eq, Structural)]
pub enum Named {
    Key(u8),
    Media(u16),
    Mouse(Action),
    /// A modifier, by its HID bit (0..8).
    Modifier(u8),
}

/// Names of keys that are not a single letter or digit, and not F1..F24.
pub open spec fn named_key(s: Seq<char>) -> Option<u8> {
    if s == "esc"@ || s == "escape"@ {
        Some(0x29)
    } else if s == "enter"@ || s == "return"@ {
        Some(0x28)
    } else if s == "backspace"@ {
        Some(0x2A)
    } else if s == "tab"@ {
        Some(0x2B)
    } else if s == "space"@ {
        Some(0x2C)
    } else if s == "minus"@ {
        Some(0x2D)
    } else if s == "equal"@ {
        Some(0x2E)
    } else if s == "leftbracket"@ {
        Some(0x2F)
    } else if s == "rightbracket"@ {
        Some(0x30)
    } else if s == "backslash"@ {
        Some(0x31)
    } else if s == "semicolon"@ {
        Some(0x33)
    } else if s == "quote"@ {
        Some(0x34)
    } else if s == "grave"@ {
        Some(0x35)
    } else if s == "comma"@ {
        Some(0x36)
    } else if s == "period"@ {
        Some(0x37)
    } else if s == "slash"@ {
        Some(0x38)
    } else if s == "capslock"@ {
        Some(0x39)
    } else if s == "insert"@ {
        Some(0x49)
    } else if s == "home"@ {
        Some(0x4A)
    } else if s == "pageup"@ {
        Some(0x4B)
    } else if s == "delete"@ {
        Some(0x4C)
    } else if s == "end"@ {
        Some(0x4D)
    } else if s == "pagedown"@ {
        Some(0x4E)
    } else if s == "right"@ {
        Some(0x4F)
    } else if s == "left"@ {
        Some(0x50)
    } else if s == "down"@ {
        Some(0x51)
    } else if s == "up"@ {
        Some(0x52)
    } else {
        None
    }
}

/// Consumer-page usages by name.
pub open spec fn named_media(s: Seq<char>) -> Option<u16> {
    if s == "play"@ {
        Some(0x00CD)
    } else if s == "next"@ {
        Some(0x00B5)
    } else if s == "prev"@ {
        Some(0x00B6)
    } else if s == "stop"@ {
        Some(0x00B7)
    } else if s == "mute"@ {
        Some(0x00E2)
    } else if s == "volumeup"@ {
        Some(0x00E9)
    } else if s == "volumedown"@ {
        Some(0x00EA)
    } else if s == "brightnessup"@ {
        Some(0x006F)
    } else if s == "brightnessdown"@ {
        Some(0x0070)
    } else if s == "calculator"@ {
        Some(0x0192)
    } else {
        None
    }
}

/// Mouse actions by name.
pub open spec fn named_mouse(s: Seq<char>) -> Option<Action> {
    if s == "click"@ || s == "lclick"@ {
        Some(Action::MouseClick { button: 1 })
    } else if s == "rclick"@ {
        Some(Action::MouseClick { button: 2 })
    } else if s == "mclick"@ {
        Some(Action::MouseClick { button: 4 })
    } else if s == "wheelup"@ {
        Some(Action::MouseWheel { delta: 1 })
    } else if s == "wheeldown"@ {
        Some(Action::MouseWheel { delta: -1i8 })
    } else {
        None
    }
}

/// Modifiers by name, as their HID bit.
pub open spec fn named_modifier(s: Seq<char>) -> Option<u8> {
    if s == "ctrl"@ {
        Some(0)
    } else if s == "shift"@ {
        Some(1)
    } else if s == "alt"@ {
        Some(2)
    } else if s == "cmd"@ || s == "win"@ {
        Some(3)
    } else if s == "rctrl"@ {
        Some(4)
    } else if s == "rshift"@ {
        Some(5)
    } else if s == "ralt"@ {
        Some(6)
    } else if s == "rcmd"@ {
        Some(7)
    } else {
        None
    }
}

/// A single letter or digit: `a`..`z` are usages 0x04..0x1D, `1`..`9`
/// are 0x1E..0x26 and `0` is 0x27.
pub open spec fn single_key(s: Seq<char>) -> Option<u8> {
    if s.len() == 1 {
        let c = s[0] as u32;
        if 97 <= c <= 122 {
            Some((0x04 + (c - 97)) as u8)
        } else if 49 <= c <= 57 {
            Some((0x1E + (c - 49)) as u8)
        } else if c == 48 {
            Some(0x27)
        } else {
            None
        }
    } else {
        None
    }
}

/// The value of a decimal digit character, if it is one.
pub open spec fn digit_value(c: char) -> Option<nat> {
    if 48 <= (c as u32) <= 57 {
        Some(((c as u32) - 48) as nat)
    } else {
        None
    }
}

/// `f1`..`f24`: F1-F12 are usages 0x3A..0x45, F13-F24 are 0x68..0x73.
pub open spec fn function_key(s: Seq<char>) -> Option<u8> {
    if s.len() == 2 && s[0] == 'f' && digit_value(s[1]).is_some() {
        let n = digit_value(s[1]).unwrap();
        if n >= 1 {
            Some((0x3A + n - 1) as u8)
        } else {
            None
        }
    } else if s.len() == 3 && s[0] == 'f' && digit_value(s[1]).is_some() && digit_value(s[2]).is_some() {
        let n = digit_value(s[1]).unwrap() * 10 + digit_value(s[2]).unwrap();
        if 10 <= n <= 12 {
            Some((0x3A + n - 1) as u8)
        } else if 13 <= n <= 24 {
            Some((0x68 + n - 13) as u8)
        } else {
            None
        }
    } else {
        None
    }
}

/// What a single name denotes.
pub open spec fn named(s: Seq<char>) -> Option<Named> {
    if single_key(s).is_some() {
        Some(Named::Key(single_key(s).unwrap()))
    } else if function_key(s).is_some() {
        Some(Named::Key(function_key(s).unwrap()))
    } else if named_key(s).is_some() {
        Some(Named::Key(named_key(s).unwrap()))
    } else if named_media(s).is_some() {
        Some(Named::Media(named_media(s).unwrap()))
    } else if named_mouse(s).is_some() {
        Some(Named::Mouse(named_mouse(s).unwrap()))
    } else if named_modifier(s).is_some() {
        Some(Named::Modifier(named_modifier(s).unwrap()))
    } else {
        None
    }
}

/// Why an action name was refused.
#[derive(Debug, Clone, PartialEq, Eq)]
pub enum ParseError {
    /// The name, or one of its parts, is empty.
    Empty,
    /// A part names nothing in the vocabulary.
    UnknownName(String),
    /// A part before the key is not a modifier.
    NotAModifier(String),
    /// Modifiers were given for a media or mouse action; only keystrokes
    /// carry them.
    ModifierOnNonKey(String),
}

/// A parse error, as the characters it carries.
pub enum ParseFault {
    Empty,
    UnknownName(Seq<char>),
    NotAModifier(Seq<char>),
    ModifierOnNonKey(Seq<char>),
}

impl View for ParseError {
    type V = ParseFault;

    open spec fn view(&self) -> ParseFault {
        match self {
            ParseError::Empty => ParseFault::Empty,
            ParseError::UnknownName(s) => ParseFault::UnknownName(s@),
            ParseError::NotAModifier(s) => ParseFault::NotAModifier(s@),
            ParseError::ModifierOnNonKey(s) => ParseFault::ModifierOnNonKey(s@),
        }
    }
}

/// A result with its error seen as characters.
pub open spec fn lift<T>(r: Result<T, ParseError>) -> Result<T, ParseFault> {
    match r {
        Ok(v) => Ok(v),
        Err(e) => Err(e@),
    }
}

/// A separator between the parts of a chord.
pub open spec fn is_sep(c: char) -> bool {
    c == '-' || c == '+'
}

/// The index of the last separator in `s`.
pub open spec fn last_sep(s: Seq<char>) -> Option<int>
    decreases s.len(),
{
    if s.len() == 0 {
        None
    } else if is_sep(s.last()) {
        Some(s.len() - 1)
    } else {
        last_sep(s.drop_last())
    }
}

pub proof fn lemma_last_sep(s: Seq<char>)
    ensures
        last_sep(s) matches Some(i) ==> 0 <= i < s.len() && is_sep(s[i]),
        last_sep(s) matches Some(i) ==> forall|j: int| i < j < s.len() ==> !is_sep(#[trigger] s[j]),
        last_sep(s) is None ==> forall|j: int| 0 <= j < s.len() ==> !is_sep(#[trigger] s[j]),
    decreases s.len(),
{
    if s.len() > 0 && !is_sep(s.last()) {
        lemma_last_sep(s.drop_last());
        assert forall|j: int| 0 <= j < s.len() - 1 implies s.drop_last()[j] == s[j] by {}
    }
}

/// One modifier part, as a bitmask.
pub open spec fn modifier_part(t: Seq<char>) -> Result<u8, ParseFault> {
    if t.len() == 0 {
        Err(ParseFault::Empty)
    } else {
        match named_modifier(t) {
            Some(b) => Ok(1u8 << b),
            None => Err(ParseFault::NotAModifier(t)),
        }
    }
}

/// The modifier bitmask of a run of modifier parts joined by separators.
pub open spec fn modifier_parts(s: Seq<char>) -> Result<u8, ParseFault>
    decreases s.len(),
{
    match last_sep(s) {
        None => modifier_part(s),
        Some(i) => {
            proof {
                lemma_last_sep(s);
            }
            match modifier_parts(s.take(i)) {
                Err(e) => Err(e),
                Ok(m) => match modifier_part(s.skip(i + 1)) {
                    Err(e) => Err(e),
                    Ok(b) => Ok(m | b),
                },
            }
        },
    }
}

/// The final part of a name, given the modifiers before it.
pub open spec fn key_part(t: Seq<char>, mods: u8, whole: Seq<char>) -> Result<Action, ParseFault> {
    if t.len() == 0 {
        Err(ParseFault::Empty)
    } else {
        match named(t) {
            None => Err(ParseFault::UnknownName(t)),
            Some(Named::Key(c)) => Ok(Action::Key { modifiers: mods, code: c }),
            Some(Named::Modifier(b)) => Ok(Action::Key { modifiers: mods, code: (0xE0 + b) as u8 }),
            Some(Named::Media(u)) => if mods == 0 {
                Ok(Action::Media(u))
            } else {
                Err(ParseFault::ModifierOnNonKey(whole))
            },
            Some(Named::Mouse(a)) => if mods == 0 {
                Ok(a)
            } else {
                Err(ParseFault::ModifierOnNonKey(whole))
            },
        }
    }
}

/// What an action name means: modifiers joined to a final key, media or
/// mouse name. A bare modifier name is the modifier key itself
/// (usages 0xE0..0xE7).
pub open spec fn parse_action(s: Seq<char>) -> Result<Action, ParseFault> {
    match last_sep(s) {
        None => key_part(s, 0, s),
        Some(i) => match modifier_parts(s.take(i)) {
            Err(e) => Err(e),
            Ok(m) => key_part(s.skip(i + 1), m, s),
        },
    }
}

/// Whether `v[lo..hi]` spells `lit`.
fn spells(v: &Vec<char>, lo: usize, hi: usize, lit: &str) -> (r: bool)
    requires
        lo <= hi <= v.len(),
    ensures
        r == (v@.subrange(lo as int, hi as int) == lit@),
{
    let n: usize = lit.unicode_len();
    if n != hi - lo {
        return false;
    }
    let mut j: usize = 0;
    while j < n
        invariant
            n == lit@.len(),
            n == hi - lo,
            lo <= hi <= v.len(),
            j <= n,
            forall|k: int| 0 <= k < j ==> v@[lo + k] == lit@[k],
        decreases n - j,
    {
        if v[lo + j] != lit.get_char(j) {
            assert(v@.subrange(lo as int, hi as int)[j as int] != lit@[j as int]);
            return false;
        }
        j = j + 1;
    }
    assert(v@.subrange(lo as int, hi as int) =~= lit@);
    true
}

fn lookup_named_key(v: &Vec<char>, lo: usize, hi: usize) -> (r: Option<u8>)
    requires
        lo <= hi <= v.len(),
    ensures
        r == named_key(v@.subrange(lo as int, hi as int)),
{
    if spells(v, lo, hi, "esc") || spells(v, lo, hi, "escape") {
        Some(0x29)
    } else if spells(v, lo, hi, "enter") || spells(v, lo, hi, "return") {
        Some(0x28)
    } else if spells(v, lo, hi, "backspace") {
        Some(0x2A)
    } else if spells(v, lo, hi, "tab") {
        Some(0x2B)
    } else if spells(v, lo, hi, "space") {
        Some(0x2C)
    } else if spells(v, lo, hi, "minus") {
        Some(0x2D)
    } else if spells(v, lo, hi, "equal") {
        Some(0x2E)
    } else if spells(v, lo, hi, "leftbracket") {
        Some(0x2F)
    } else if spells(v, lo, hi, "rightbracket") {
        Some(0x30)
    } else if spells(v, lo, hi, "backslash") {
        Some(0x31)
    } else if spells(v, lo, hi, "semicolon") {
        Some(0x33)
    } else if spells(v, lo, hi, "quote") {
        Some(0x34)
    } else if spells(v, lo, hi, "grave") {
        Some(0x35)
    } else if spells(v, lo, hi, "comma") {
        Some(0x36)
    } else if spells(v, lo, hi, "period") {
        Some(0x37)
    } else if spells(v, lo, hi, "slash") {
        Some(0x38)
    } else if spells(v, lo, hi, "capslock") {
        Some(0x39)
    } else if spells(v, lo, hi, "insert") {
        Some(0x49)
    } else if spells(v, lo, hi, "home") {
        Some(0x4A)
    } else if spells(v, lo, hi, "pageup") {
        Some(0x4B)
    } else if spells(v, lo, hi, "delete") {
        Some(0x4C)
    } else if spells(v, lo, hi, "end") {
        Some(0x4D)
    } else if spells(v, lo, hi, "pagedown") {
        Some(0x4E)
    } else if spells(v, lo, hi, "right") {
        Some(0x4F)
    } else if spells(v, lo, hi, "left") {
        Some(0x50)
    } else if spells(v, lo, hi, "down") {
        Some(0x51)
    } else if spells(v, lo, hi, "up") {
        Some(0x52)
    } else {
        None
    }
}

fn lookup_media(v: &Vec<char>, lo: usize, hi: usize) -> (r: Option<u16>)
    requires
        lo <= hi <= v.len(),
    ensures
        r == named_media(v@.subrange(lo as int, hi as int)),
{
    if spells(v, lo, hi, "play") {
        Some(0x00CD)
    } else if spells(v, lo, hi, "next") {
        Some(0x00B5)
    } else if spells(v, lo, hi, "prev") {
        Some(0x00B6)
    } else if spells(v, lo, hi, "stop") {
        Some(0x00B7)
    } else if spells(v, lo, hi, "mute") {
        Some(0x00E2)
    } else if spells(v, lo, hi, "volumeup") {
        Some(0x00E9)
    } else if spells(v, lo, hi, "volumedown") {
        Some(0x00EA)
    } else if spells(v, lo, hi, "brightnessup") {
        Some(0x006F)
    } else if spells(v, lo, hi, "brightnessdown") {
        Some(0x0070)
    } else if spells(v, lo, hi, "calculator") {
        Some(0x0192)
    } else {
        None
    }
}

fn lookup_mouse(v: &Vec<char>, lo: usize, hi: usize) -> (r: Option<Action>)
    requires
        lo <= hi <= v.len(),
    ensures
        r == named_mouse(v@.subrange(lo as int, hi as int)),
{
    if spells(v, lo, hi, "click") || spells(v, lo, hi, "lclick") {
        Some(Action::MouseClick { button: 1 })
    } else if spells(v, lo, hi, "rclick") {
        Some(Action::MouseClick { button: 2 })
    } else if spells(v, lo, hi, "mclick") {
        Some(Action::MouseClick { button: 4 })
    } else if spells(v, lo, hi, "wheelup") {
        Some(Action::MouseWheel { delta: 1 })
    } else if spells(v, lo, hi, "wheeldown") {
        Some(Action::MouseWheel { delta: -1i8 })
    } else {
        None
    }
}

fn lookup_modifier(v: &Vec<char>, lo: usize, hi: usize) -> (r: Option<u8>)
    requires
        lo <= hi <= v.len(),
    ensures
        r == named_modifier(v@.subrange(lo as int, hi as int)),
{
    if spells(v, lo, hi, "ctrl") {
        Some(0)
    } else if spells(v, lo, hi, "shift") {
        Some(1)
    } else if spells(v, lo, hi, "alt") {
        Some(2)
    } else if spells(v, lo, hi, "cmd") || spells(v, lo, hi, "win") {
        Some(3)
    } else if spells(v, lo, hi, "rctrl") {
        Some(4)
    } else if spells(v, lo, hi, "rshift") {
        Some(5)
    } else if spells(v, lo, hi, "ralt") {
        Some(6)
    } else if spells(v, lo, hi, "rcmd") {
        Some(7)
    } else {
        None
    }
}

fn digit_of(c: char) -> (r: Option<u8>)
    ensures
        match digit_value(c) {
            Some(d) => r == Some(d as u8),
            None => r.is_none(),
        },
{
    let u: u32 = c as u32;
    if 48 <= u && u <= 57 {
        Some((u - 48) as u8)
    } else {
        None
    }
}

fn lookup_single(v: &Vec<char>, lo: usize, hi: usize) -> (r: Option<u8>)
    requires
        lo <= hi <= v.len(),
    ensures
        r == single_key(v@.subrange(lo as int, hi as int)),
{
    if hi - lo != 1 {
        return None;
    }
    let c: u32 = v[lo] as u32;
    assert(v@.subrange(lo as int, hi as int)[0] == v@[lo as int]);
    if 97 <= c && c <= 122 {
        Some((0x04 + (c - 97)) as u8)
    } else if 49 <= c && c <= 57 {
        Some((0x1E + (c - 49)) as u8)
    } else if c == 48 {
        Some(0x27)
    } else {
        None
    }
}

fn lookup_function_key(v: &Vec<char>, lo: usize, hi: usize) -> (r: Option<u8>)
    requires
        lo <= hi <= v.len(),
    ensures
        r == function_key(v@.subrange(lo as int, hi as int)),
{
    let ghost s = v@.subrange(lo as int, hi as int);
    let n: usize = hi - lo;
    if n != 2 && n != 3 {
        return None;
    }
    assert(s[0] == v@[lo as int]);
    if v[lo] != 'f' {
        return None;
    }
    assert(s[1] == v@[lo + 1]);
    let d1 = digit_of(v[lo + 1]);
    match d1 {
        None => None,
        Some(a) => {
            if n == 2 {
                if a >= 1 {
                    Some(0x3A + a - 1)
                } else {
                    None
                }
            } else {
                assert(s[2] == v@[lo + 2]);
                match digit_of(v[lo + 2]) {
                    None => None,
                    Some(b) => {
                        let k: u8 = a * 10 + b;
                        if 10 <= k && k <= 12 {
                            Some(0x3A + k - 1)
                        } else if 13 <= k && k <= 24 {
                            Some(0x68 + k - 13)
                        } else {
                            None
                        }
                    },
                }
            }
        },
    }
}

fn lookup_named(v: &Vec<char>, lo: usize, hi: usize) -> (r: Option<Named>)
    requires
        lo <= hi <= v.len(),
    ensures
        r == named(v@.subrange(lo as int, hi as int)),
{
    if let Some(k) = lookup_single(v, lo, hi) {
        return Some(Named::Key(k));
    }
    if let Some(k) = lookup_function_key(v, lo, hi) {
        return Some(Named::Key(k));
    }
    if let Some(k) = lookup_named_key(v, lo, hi) {
        return Some(Named::Key(k));
    }
    if let Some(u) = lookup_media(v, lo, hi) {
        return Some(Named::Media(u));
    }
    if let Some(a) = lookup_mouse(v, lo, hi) {
        return Some(Named::Mouse(a));
    }
    if let Some(b) = lookup_modifier(v, lo, hi) {
        return Some(Named::Modifier(b));
    }
    None
}

/// The characters `v[lo..hi]` as a `String`.
fn string_of(v: &Vec<char>, lo: usize, hi: usize) -> (r: String)
    requires
        lo <= hi <= v.len(),
    ensures
        r@ == v@.subrange(lo as int, hi as int),
{
    let mut out = String::new();
    let mut i: usize = lo;
    while i < hi
        invariant
            lo <= i <= hi <= v.len(),
            out@ == v@.subrange(lo as int, i as int),
        decreases hi - i,
    {
        push_char(&mut out, v[i]);
        assert(v@.subrange(lo as int, i + 1) =~= v@.subrange(lo as int, i as int).push(v@[i as int]));
        i = i + 1;
    }
    out
}

/// The last separator in `v[lo..hi]`, as an index into `v`.
fn find_last_sep(v: &Vec<char>, lo: usize, hi: usize) -> (r: Option<usize>)
    requires
        lo <= hi <= v.len(),
    ensures
        match last_sep(v@.subrange(lo as int, hi as int)) {
            None => r.is_none(),
            Some(i) => r == Some((lo + i) as usize),
        },
{
    let mut k: usize = hi;
    while k > lo
        invariant
            lo <= k <= hi <= v.len(),
            last_sep(v@.subrange(lo as int, hi as int)) == last_sep(v@.subrange(lo as int, k as int)),
        decreases k - lo,
    {
        let c = v[k - 1];
        assert(v@.subrange(lo as int, k as int).last() == v@[k - 1]);
        if c == '-' || c == '+' {
            return Some(k - 1);
        }
        assert(v@.subrange(lo as int, k as int).drop_last() =~= v@.subrange(lo as int, k - 1));
        k = k - 1;
    }
    None
}

fn parse_modifier_part(v: &Vec<char>, lo: usize, hi: usize) -> (r: Result<u8, ParseError>)
    requires
        lo <= hi <= v.len(),
    ensures
        lift(r) == modifier_part(v@.subrange(lo as int, hi as int)),
{
    if lo == hi {
        return Err(ParseError::Empty);
    }
    match lookup_modifier(v, lo, hi) {
        Some(b) => Ok(1u8 << b),
        None => Err(ParseError::NotAModifier(string_of(v, lo, hi))),
    }
}

fn parse_modifier_parts(v: &Vec<char>, lo: usize, hi: usize) -> (r: Result<u8, ParseError>)
    requires
        lo <= hi <= v.len(),
    ensures
        lift(r) == modifier_parts(v@.subrange(lo as int, hi as int)),
    decreases hi - lo,
{
    let ghost s = v@.subrange(lo as int, hi as int);
    proof {
        lemma_last_sep(s);
    }
    match find_last_sep(v, lo, hi) {
        None => parse_modifier_part(v, lo, hi),
        Some(at) => {
            let ghost i = at - lo;
            assert(s.take(i) =~= v@.subrange(lo as int, at as int));
            assert(s.skip(i + 1) =~= v@.subrange(at + 1, hi as int));
            match parse_modifier_parts(v, lo, at) {
                Err(e) => Err(e),
                Ok(m) => match parse_modifier_part(v, at + 1, hi) {
                    Err(e) => Err(e),
                    Ok(b) => Ok(m | b),
                },
            }
        },
    }
}

fn parse_key_part(v: &Vec<char>, lo: usize, hi: usize, mods: u8) -> (r: Result<Action, ParseError>)
    requires
        lo <= hi <= v.len(),
    ensures
        lift(r) == key_part(v@.subrange(lo as int, hi as int), mods, v@),
{
    if lo == hi {
        return Err(ParseError::Empty);
    }
    assert(v@.subrange(0, v.len() as int) =~= v@);
    match lookup_named(v, lo, hi) {
        None => Err(ParseError::UnknownName(string_of(v, lo, hi))),
        Some(Named::Key(c)) => Ok(Action::Key { modifiers: mods, code: c }),
        Some(Named::Modifier(b)) => {
            proof {
                assert(named_modifier(v@.subrange(lo as int, hi as int)).unwrap() < 8);
            }
            Ok(Action::Key { modifiers: mods, code: 0xE0 + b })
        },
        Some(Named::Media(u)) => {
            if mods == 0 {
                Ok(Action::Media(u))
            } else {
                Err(ParseError::ModifierOnNonKey(string_of(v, 0, v.len())))
            }
        },
        Some(Named::Mouse(a)) => {
            if mods == 0 {
                Ok(a)
            } else {
                Err(ParseError::ModifierOnNonKey(string_of(v, 0, v.len())))
            }
        },
    }
}

impl Action {
    /// Parse an action name from the layout vocabulary.
    pub fn parse(name: &str) -> (r: Result<Action, ParseError>)
        ensures
            lift(r) == parse_action(name@),
    {
        let v = chars_of_name(name);
        let n: usize = v.len();
        let ghost s = v@;
        assert(v@.subrange(0, n as int) =~= s);
        proof {
            lemma_last_sep(s);
        }
        match find_last_sep(&v, 0, n) {
            None => parse_key_part(&v, 0, n, 0),
            Some(at) => {
                assert(s.take(at as int) =~= v@.subrange(0, at as int));
                assert(s.skip(at + 1) =~= v@.subrange(at + 1, n as int));
                match parse_modifier_parts(&v, 0, at) {
                    Err(e) => Err(e),
                    Ok(m) => parse_key_part(&v, at + 1, n, m),
                }
            },
        }
    }
}

fn chars_of_name(name: &str) -> (r: Vec<char>)
    ensures
        r@ == name@,
{
    crate::text::chars_of(name)
}

impl ParseError {
    /// The error as a sentence.
    pub fn message(&self) -> (r: String)
        ensures
            r@ == parse_error_message(self@),
    {
        let mut out = String::new();
        match self {
            ParseError::Empty => {
                push_str(&mut out, "an action name (or a part of a chord) is empty");
            },
            ParseError::UnknownName(n) => {
                push_str(&mut out, "unknown action name '");
                push_str(&mut out, n.as_str());
                push_str(&mut out, "'; `antiknob show-keys` lists the names the device understands");
            },
            ParseError::NotAModifier(n) => {
                push_str(&mut out, "'");
                push_str(&mut out, n.as_str());
                push_str(&mut out, "' is not a modifier, so it cannot come before the key of a chord");
            },
            ParseError::ModifierOnNonKey(n) => {
                push_str(&mut out, "'");
                push_str(&mut out, n.as_str());
                push_str(&mut out, "' puts modifiers on a media or mouse action; only keystrokes carry them");
            },
        }
        out
    }
}

/// The text of a parse error.
pub open spec fn parse_error_message(e: ParseFault) -> Seq<char> {
    match e {
        ParseFault::Empty => "an action name (or a part of a chord) is empty"@,
        ParseFault::UnknownName(n) => "unknown action name '"@ + n
            + "'; `antiknob show-keys` lists the names the device understands"@,
        ParseFault::NotAModifier(n) => "'"@ + n + "' is not a modifier, so it cannot come before the key of a chord"@,
        ParseFault::ModifierOnNonKey(n) => "'"@ + n
            + "' puts modifiers on a media or mouse action; only keystrokes carry them"@,
    }
}

/// Knob slots follow the buttons: every gesture's slot is past the last
/// button's key id, and no two gestures (of any knobs) share a slot.
pub proof fn lemma_knob_slots_follow_buttons(button_count: nat, k1: nat, e1: KnobEvent, k2: nat, e2: KnobEvent)
    ensures
        knob_key_id(button_count, k1, e1) > button_count,
        (k1 != k2 || e1 != e2) ==> knob_key_id(button_count, k1, e1) != knob_key_id(button_count, k2, e2),
{
    let o1 = ordinal(e1);
    let o2 = ordinal(e2);
    assert(o1 < 5 && o2 < 5);
    if k1 * 5 + o1 == k2 * 5 + o2 {
        assert(k1 == k2 && o1 == o2) by (nonlinear_arith)
            requires
                k1 * 5 + o1 == k2 * 5 + o2,
                o1 < 5,
                o2 < 5,
        ;
    }
}


/// The knob slots of a layer run on from the buttons without gaps: the
/// first knob's first gesture takes the key id after the last button, each
/// gesture takes the id after the one before it, and each knob starts right
/// after the previous knob's last gesture. So every gesture of a layout
/// with `knobs` knobs lands inside the layer, whose width is the buttons
/// plus five slots per knob.
pub proof fn lemma_knob_slots_are_contiguous(button_count: nat, knobs: nat, k: nat, e: KnobEvent)
    ensures
        knob_key_id(button_count, 0, KnobEvent::RotateCCW) == button_count + 1,
        knob_key_id(button_count, k, KnobEvent::Press) == knob_key_id(button_count, k, KnobEvent::RotateCCW) + 1,
        knob_key_id(button_count, k, KnobEvent::RotateCW) == knob_key_id(button_count, k, KnobEvent::Press) + 1,
        knob_key_id(button_count, k, KnobEvent::HoldTwistL) == knob_key_id(button_count, k, KnobEvent::RotateCW) + 1,
        knob_key_id(button_count, k, KnobEvent::HoldTwistR) == knob_key_id(button_count, k, KnobEvent::HoldTwistL) + 1,
        knob_key_id(button_count, k + 1, KnobEvent::RotateCCW) == knob_key_id(button_count, k, KnobEvent::HoldTwistR) + 1,
        k < knobs ==> button_count + 1 <= knob_key_id(button_count, k, e) <= button_count + 5 * knobs,
        k < knobs ==> knob_key_id(button_count, k, e) <= button_count + crate::firmware::GESTURES_PER_KNOB * knobs,
{
    if k < knobs {
        assert(k + 1 <= knobs);
        assert(5 * (k + 1) <= 5 * knobs) by (nonlinear_arith)
            requires
                k + 1 <= knobs,
        ;
    }
}

/// Each media name stands for its usage on the HID Consumer page.
pub proof fn lemma_media_usages()
    ensures
        named_media("play"@) == Some(0x00CDu16),
        named_media("next"@) == Some(0x00B5u16),
        named_media("prev"@) == Some(0x00B6u16),
        named_media("stop"@) == Some(0x00B7u16),
        named_media("mute"@) == Some(0x00E2u16),
        named_media("volumeup"@) == Some(0x00E9u16),
        named_media("volumedown"@) == Some(0x00EAu16),
        named_media("brightnessup"@) == Some(0x006Fu16),
        named_media("brightnessdown"@) == Some(0x0070u16),
        named_media("calculator"@) == Some(0x0192u16),
{
    reveal_strlit("play");
    reveal_strlit("next");
    reveal_strlit("prev");
    reveal_strlit("stop");
    reveal_strlit("mute");
    reveal_strlit("volumeup");
    reveal_strlit("volumedown");
    reveal_strlit("brightnessup");
    reveal_strlit("brightnessdown");
    reveal_strlit("calculator");
    assert("next"@[0] != "play"@[0]);
    assert("prev"@[1] != "play"@[1] && "prev"@[0] != "next"@[0]);
    assert("stop"@[0] != "play"@[0] && "stop"@[0] != "next"@[0] && "stop"@[0] != "prev"@[0]);
    assert("mute"@[0] != "play"@[0] && "mute"@[0] != "next"@[0] && "mute"@[0] != "prev"@[0] && "mute"@[0] != "stop"@[0]);
    assert("volumeup"@.len() != 4);
    assert("volumedown"@.len() != 4 && "volumedown"@.len() != "volumeup"@.len());
    assert("brightnessup"@.len() != 4 && "brightnessup"@.len() != 8 && "brightnessup"@.len() != 10);
    assert("brightnessdown"@.len() != 4 && "brightnessdown"@.len() != 8 && "brightnessdown"@.len() != 10
        && "brightnessdown"@.len() != 12);
    assert("calculator"@.len() == 10 && "calculator"@[0] != "volumedown"@[0]);
    assert("calculator"@.len() != 4 && "calculator"@.len() != 8 && "calculator"@.len() != 12 && "calculator"@.len() != 14);
}

/// Different media names stand for different usages: no two names of the
/// vocabulary send the same consumer control.
pub proof fn lemma_media_names_are_distinct(a: Seq<char>, b: Seq<char>)
    requires
        named_media(a) is Some,
        named_media(a) == named_media(b),
    ensures
        a == b,
{
}

} // verus!

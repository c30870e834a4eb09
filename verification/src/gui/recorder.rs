//! The shortcut recorder: the name the device vocabulary gives a key the
//! window saw pressed, and the chord it spells with the held modifiers.

use vstd::prelude::*;
use crate::text::{join, join_strings};

verus! {

/// A key the settings window reports. `Unlisted` stands for every key the
/// vocabulary has no name for.
#[derive(Debug, Clone, Copy, PartialEq, Eq, Structural)]
pub enum Key {
    A,
    B,
    C,
    D,
    E,
    F,
    G,
    H,
    I,
    J,
    K,
    L,
    M,
    N,
    O,
    P,
    Q,
    R,
    S,
    T,
    U,
    V,
    W,
    X,
    Y,
    Z,
    Num0,
    Num1,
    Num2,
    Num3,
    Num4,
    Num5,
    Num6,
    Num7,
    Num8,
    Num9,
    Space,
    Enter,
    Backspace,
    Tab,
    Escape,
    Delete,
    Home,
    End,
    PageUp,
    PageDown,
    ArrowUp,
    ArrowDown,
    ArrowLeft,
    ArrowRight,
    Minus,
    Equals,
    OpenBracket,
    CloseBracket,
    Backslash,
    Semicolon,
    Quote,
    Backtick,
    Comma,
    Period,
    Slash,
    F1,
    F2,
    F3,
    F4,
    F5,
    F6,
    F7,
    F8,
    F9,
    F10,
    F11,
    F12,
    Unlisted,
}

/// The modifiers held with a key, as the window reports them.
#[derive(Debug, Clone, Copy, PartialEq, Eq, Structural)]
pub struct Modifiers {
    pub alt: bool,
    pub ctrl: bool,
    pub shift: bool,
    pub mac_cmd: bool,
    /// The platform's command modifier: cmd on macOS, ctrl elsewhere.
    pub command: bool,
}

/// The vocabulary's name for a key, if it has one.
pub open spec fn key_label(key: Key) -> Option<Seq<char>> {
    match key {
        Key::A => Some("a"@),
        Key::B => Some("b"@),
        Key::C => Some("c"@),
        Key::D => Some("d"@),
        Key::E => Some("e"@),
        Key::F => Some("f"@),
        Key::G => Some("g"@),
        Key::H => Some("h"@),
        Key::I => Some("i"@),
        Key::J => Some("j"@),
        Key::K => Some("k"@),
        Key::L => Some("l"@),
        Key::M => Some("m"@),
        Key::N => Some("n"@),
        Key::O => Some("o"@),
        Key::P => Some("p"@),
        Key::Q => Some("q"@),
        Key::R => Some("r"@),
        Key::S => Some("s"@),
        Key::T => Some("t"@),
        Key::U => Some("u"@),
        Key::V => Some("v"@),
        Key::W => Some("w"@),
        Key::X => Some("x"@),
        Key::Y => Some("y"@),
        Key::Z => Some("z"@),
        Key::Num0 => Some("0"@),
        Key::Num1 => Some("1"@),
        Key::Num2 => Some("2"@),
        Key::Num3 => Some("3"@),
        Key::Num4 => Some("4"@),
        Key::Num5 => Some("5"@),
        Key::Num6 => Some("6"@),
        Key::Num7 => Some("7"@),
        Key::Num8 => Some("8"@),
        Key::Num9 => Some("9"@),
        Key::Space => Some("space"@),
        Key::Enter => Some("enter"@),
        Key::Backspace => Some("backspace"@),
        Key::Tab => Some("tab"@),
        Key::Escape => Some("esc"@),
        Key::Delete => Some("delete"@),
        Key::Home => Some("home"@),
        Key::End => Some("end"@),
        Key::PageUp => Some("pageup"@),
        Key::PageDown => Some("pagedown"@),
        Key::ArrowUp => Some("up"@),
        Key::ArrowDown => Some("down"@),
        Key::ArrowLeft => Some("left"@),
        Key::ArrowRight => Some("right"@),
        Key::Minus => Some("minus"@),
        Key::Equals => Some("equal"@),
        Key::OpenBracket => Some("leftbracket"@),
        Key::CloseBracket => Some("rightbracket"@),
        Key::Backslash => Some("backslash"@),
        Key::Semicolon => Some("semicolon"@),
        Key::Quote => Some("quote"@),
        Key::Backtick => Some("grave"@),
        Key::Comma => Some("comma"@),
        Key::Period => Some("period"@),
        Key::Slash => Some("slash"@),
        Key::F1 => Some("f1"@),
        Key::F2 => Some("f2"@),
        Key::F3 => Some("f3"@),
        Key::F4 => Some("f4"@),
        Key::F5 => Some("f5"@),
        Key::F6 => Some("f6"@),
        Key::F7 => Some("f7"@),
        Key::F8 => Some("f8"@),
        Key::F9 => Some("f9"@),
        Key::F10 => Some("f10"@),
        Key::F11 => Some("f11"@),
        Key::F12 => Some("f12"@),
        Key::Unlisted => None,
    }
}

/// The modifier words of a chord, in the order they are written.
pub open spec fn modifier_words(m: Modifiers) -> Seq<Seq<char>> {
    (if m.ctrl { seq!["ctrl"@] } else { Seq::empty() })
        + (if m.alt { seq!["alt"@] } else { Seq::empty() })
        + (if m.shift { seq!["shift"@] } else { Seq::empty() })
        + (if m.mac_cmd || m.command { seq!["cmd"@] } else { Seq::empty() })
}

/// A chord as the vocabulary writes it: the modifiers, then the key, joined
/// by `+`.
pub open spec fn chord_text(m: Modifiers, key_name: Seq<char>) -> Seq<char> {
    join(modifier_words(m).push(key_name), "+"@)
}

/// The vocabulary's name for `key`, or `None` for a key it cannot bind.
pub fn format_key(key: Key) -> (r: Option<&'static str>)
    ensures
        match r {
            Some(s) => key_label(key) == Some(s@),
            None => key_label(key) is None,
        },
{
    match key {
        Key::A => Some("a"),
        Key::B => Some("b"),
        Key::C => Some("c"),
        Key::D => Some("d"),
        Key::E => Some("e"),
        Key::F => Some("f"),
        Key::G => Some("g"),
        Key::H => Some("h"),
        Key::I => Some("i"),
        Key::J => Some("j"),
        Key::K => Some("k"),
        Key::L => Some("l"),
        Key::M => Some("m"),
        Key::N => Some("n"),
        Key::O => Some("o"),
        Key::P => Some("p"),
        Key::Q => Some("q"),
        Key::R => Some("r"),
        Key::S => Some("s"),
        Key::T => Some("t"),
        Key::U => Some("u"),
        Key::V => Some("v"),
        Key::W => Some("w"),
        Key::X => Some("x"),
        Key::Y => Some("y"),
        Key::Z => Some("z"),
        Key::Num0 => Some("0"),
        Key::Num1 => Some("1"),
        Key::Num2 => Some("2"),
        Key::Num3 => Some("3"),
        Key::Num4 => Some("4"),
        Key::Num5 => Some("5"),
        Key::Num6 => Some("6"),
        Key::Num7 => Some("7"),
        Key::Num8 => Some("8"),
        Key::Num9 => Some("9"),
        Key::Space => Some("space"),
        Key::Enter => Some("enter"),
        Key::Backspace => Some("backspace"),
        Key::Tab => Some("tab"),
        Key::Escape => Some("esc"),
        Key::Delete => Some("delete"),
        Key::Home => Some("home"),
        Key::End => Some("end"),
        Key::PageUp => Some("pageup"),
        Key::PageDown => Some("pagedown"),
        Key::ArrowUp => Some("up"),
        Key::ArrowDown => Some("down"),
        Key::ArrowLeft => Some("left"),
        Key::ArrowRight => Some("right"),
        Key::Minus => Some("minus"),
        Key::Equals => Some("equal"),
        Key::OpenBracket => Some("leftbracket"),
        Key::CloseBracket => Some("rightbracket"),
        Key::Backslash => Some("backslash"),
        Key::Semicolon => Some("semicolon"),
        Key::Quote => Some("quote"),
        Key::Backtick => Some("grave"),
        Key::Comma => Some("comma"),
        Key::Period => Some("period"),
        Key::Slash => Some("slash"),
        Key::F1 => Some("f1"),
        Key::F2 => Some("f2"),
        Key::F3 => Some("f3"),
        Key::F4 => Some("f4"),
        Key::F5 => Some("f5"),
        Key::F6 => Some("f6"),
        Key::F7 => Some("f7"),
        Key::F8 => Some("f8"),
        Key::F9 => Some("f9"),
        Key::F10 => Some("f10"),
        Key::F11 => Some("f11"),
        Key::F12 => Some("f12"),
        Key::Unlisted => None,
    }
}

/// The chord `modifiers` + `key` spells, such as `ctrl+shift+k`; `None`
/// when the key has no name.
pub fn format_shortcut(modifiers: &Modifiers, key: Key) -> (r: Option<String>)
    ensures
        match r {
            Some(s) => key_label(key) matches Some(n) && s@ == chord_text(*modifiers, n),
            None => key_label(key) is None,
        },
{
    let key_name = match format_key(key) {
        Some(n) => n,
        None => return None,
    };
    let mut parts: Vec<String> = Vec::new();
    if modifiers.ctrl {
        parts.push(String::from_str("ctrl"));
    }
    if modifiers.alt {
        parts.push(String::from_str("alt"));
    }
    if modifiers.shift {
        parts.push(String::from_str("shift"));
    }
    if modifiers.mac_cmd || modifiers.command {
        parts.push(String::from_str("cmd"));
    }
    parts.push(String::from_str(key_name));
    assert(parts@.map_values(|p: String| p@) =~= modifier_words(*modifiers).push(key_name@));
    Some(join_strings(&parts, "+"))
}

/// The chord of the first press in `presses` whose key has a name.
pub open spec fn first_chord_of(presses: Seq<(Modifiers, Key)>) -> Option<Seq<char>>
    decreases presses.len(),
{
    if presses.len() == 0 {
        None
    } else {
        match key_label(presses[0].1) {
            Some(n) => Some(chord_text(presses[0].0, n)),
            None => first_chord_of(presses.drop_first()),
        }
    }
}

/// The chord a recording takes from the keys pressed in one frame: the
/// first one the vocabulary can name; presses of unnamed keys are passed
/// over.
pub fn first_chord(presses: &Vec<(Modifiers, Key)>) -> (r: Option<String>)
    ensures
        match r {
            Some(s) => first_chord_of(presses@) == Some(s@),
            None => first_chord_of(presses@) is None,
        },
{
    let mut i: usize = 0;
    assert(presses@.skip(0) =~= presses@);
    while i < presses.len()
        invariant
            i <= presses@.len(),
            first_chord_of(presses@) == first_chord_of(presses@.skip(i as int)),
        decreases presses.len() - i,
    {
        let (m, k) = presses[i];
        assert(presses@.skip(i as int)[0] == presses@[i as int]);
        match format_shortcut(&m, k) {
            Some(s) => return Some(s),
            None => {},
        }
        assert(presses@.skip(i as int).drop_first() =~= presses@.skip(i + 1));
        i = i + 1;
    }
    assert(presses@.skip(i as int).len() == 0);
    None
}

} // verus!

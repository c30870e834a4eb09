//! Turning a raw keyboard event into a key transition.
//!
//! Modifiers arrive as flag changes, not key-down / key-up, and carry no
//! up/down bit of their own: it is derived from the flags. The per-side bits
//! tell left from right, so releasing one Control while the other is held
//! is reported for the key that moved.

use vstd::prelude::*;

verus! {

/// One physical key transition, in CG keycodes.
#[derive(Debug, Clone, Copy, PartialEq, Eq, Structural)]
pub struct KeyEvent {
    pub code: u16,
    pub pressed: bool,
}

/// What the tap should do with an event it was shown.
#[derive(Debug, Clone, Copy, PartialEq, Eq, Structural)]
pub enum Decision {
    /// Hand it on to whoever is listening next.
    Pass,
    /// Consume it; nobody downstream sees it.
    Swallow,
}

/// The kind of a raw event, as far as decoding cares.
#[derive(Debug, Clone, Copy, PartialEq, Eq, Structural)]
pub enum EventKind {
    KeyDown,
    KeyUp,
    FlagsChanged,
    /// Anything else the tap can see (mouse, scroll, tap state).
    Other,
}

/// Modifier keycodes with the per-side flag bit that says whether that
/// key is down, and the bit the modifier's two sides share. `fn` has no
/// per-side bit because there is only one of it.
pub open spec fn modifier_table() -> Seq<(u16, u64, u64)> {
    seq![
        (59u16, 0x0000_0001u64, 0x0004_0000u64),
        (62u16, 0x0000_2000u64, 0x0004_0000u64),
        (56u16, 0x0000_0002u64, 0x0002_0000u64),
        (60u16, 0x0000_0004u64, 0x0002_0000u64),
        (55u16, 0x0000_0008u64, 0x0010_0000u64),
        (54u16, 0x0000_0010u64, 0x0010_0000u64),
        (58u16, 0x0000_0020u64, 0x0008_0000u64),
        (61u16, 0x0000_0040u64, 0x0008_0000u64),
        (63u16, 0x0000_0000u64, 0x0080_0000u64),
    ]
}

fn modifier_rows() -> (r: Vec<(u16, u64, u64)>)
    ensures
        r@ == modifier_table(),
{
    let r = vec![
        (59u16, 0x0000_0001u64, 0x0004_0000u64),
        (62u16, 0x0000_2000u64, 0x0004_0000u64),
        (56u16, 0x0000_0002u64, 0x0002_0000u64),
        (60u16, 0x0000_0004u64, 0x0002_0000u64),
        (55u16, 0x0000_0008u64, 0x0010_0000u64),
        (54u16, 0x0000_0010u64, 0x0010_0000u64),
        (58u16, 0x0000_0020u64, 0x0008_0000u64),
        (61u16, 0x0000_0040u64, 0x0008_0000u64),
        (63u16, 0x0000_0000u64, 0x0080_0000u64),
    ];
    assert(r@ =~= modifier_table());
    r
}

/// The first table row for a keycode.
pub open spec fn modifier_row(t: Seq<(u16, u64, u64)>, code: u16) -> Option<(u16, u64, u64)>
    decreases t.len(),
{
    if t.len() == 0 {
        None
    } else if t[0].0 == code {
        Some(t[0])
    } else {
        modifier_row(t.drop_first(), code)
    }
}

/// The sum of the per-side bits of every row in a family.
pub open spec fn family_sides(t: Seq<(u16, u64, u64)>, family: u64) -> nat
    decreases t.len(),
{
    if t.len() == 0 {
        0
    } else {
        family_sides(t.drop_last(), family) + if t.last().2 == family { t.last().1 as nat } else { 0 }
    }
}

/// Every per-side bit belonging to the same modifier as `code`.
pub open spec fn side_bits_of(code: u16) -> nat {
    match modifier_row(modifier_table(), code) {
        None => 0,
        Some(row) => family_sides(modifier_table(), row.2),
    }
}

fn find_row(t: &Vec<(u16, u64, u64)>, code: u16) -> (r: Option<(u16, u64, u64)>)
    ensures
        r == modifier_row(t@, code),
{
    let mut i: usize = 0;
    assert(t@.skip(0) =~= t@);
    while i < t.len()
        invariant
            i <= t.len(),
            modifier_row(t@, code) == modifier_row(t@.skip(i as int), code),
        decreases t.len() - i,
    {
        assert(t@.skip(i as int)[0] == t@[i as int]);
        if t[i].0 == code {
            return Some(t[i]);
        }
        assert(t@.skip(i as int).drop_first() =~= t@.skip(i + 1));
        i = i + 1;
    }
    None
}

/// Every per-side bit belonging to the same modifier as `code`.
pub fn side_bits_for(code: u16) -> (r: u64)
    ensures
        r as nat == side_bits_of(code),
{
    let t = modifier_rows();
    let family = match find_row(&t, code) {
        None => return 0,
        Some((_, _, f)) => f,
    };
    let mut sum: u64 = 0;
    let mut i: usize = 0;
    while i < t.len()
        invariant
            i <= t.len(),
            t@ == modifier_table(),
            sum as nat == family_sides(t@.take(i as int), family),
            sum <= i * 0x2000,
        decreases t.len() - i,
    {
        assert(t@.take(i + 1).drop_last() =~= t@.take(i as int));
        assert(t@[i as int].1 <= 0x2000);
        if t[i].2 == family {
            sum = sum + t[i].1;
        }
        i = i + 1;
    }
    assert(t@.take(t.len() as int) =~= t@);
    sum
}

/// What a raw event means: key-down and key-up are what they say; a flag
/// change is a modifier's press or release, read from its own side bit
/// when the event carries any side bit for that modifier, else from the
/// bit its sides share; anything else is not a key transition.
pub open spec fn decoded(kind: EventKind, code: u16, flags: u64) -> Option<KeyEvent> {
    match kind {
        EventKind::KeyDown => Some(KeyEvent { code, pressed: true }),
        EventKind::KeyUp => Some(KeyEvent { code, pressed: false }),
        EventKind::FlagsChanged => match modifier_row(modifier_table(), code) {
            None => None,
            Some(row) => Some(KeyEvent {
                code,
                pressed: if row.1 != 0 && flags & (side_bits_of(code) as u64) != 0 {
                    flags & row.1 != 0
                } else {
                    flags & row.2 != 0
                },
            }),
        },
        EventKind::Other => None,
    }
}

/// Turn a raw event into a key transition, or `None` if it is not one.
pub fn decode(kind: EventKind, code: u16, flags: u64) -> (r: Option<KeyEvent>)
    ensures
        r == decoded(kind, code, flags),
{
    match kind {
        EventKind::KeyDown => Some(KeyEvent { code, pressed: true }),
        EventKind::KeyUp => Some(KeyEvent { code, pressed: false }),
        EventKind::FlagsChanged => {
            let t = modifier_rows();
            match find_row(&t, code) {
                None => None,
                Some((_, side, family)) => {
                    let sides = side_bits_for(code);
                    let pressed = if side != 0 && flags & sides != 0 {
                        flags & side != 0
                    } else {
                        flags & family != 0
                    };
                    Some(KeyEvent { code, pressed })
                },
            }
        },
        EventKind::Other => None,
    }
}

pub open spec fn accessibility_hint_text() -> Seq<char> {
    "could not create the event tap -- grant Accessibility (and Input Monitoring) to this binary in System Settings > Privacy & Security"@
}

/// The only realistic reason a tap fails to create, and the one the user
/// can act on.
pub fn accessibility_hint() -> (r: String)
    ensures
        r@ == accessibility_hint_text(),
{
    String::from_str(
        "could not create the event tap -- grant Accessibility (and Input Monitoring) to this binary in System Settings > Privacy & Security",
    )
}

} // verus!

//! What the menu-bar item says and offers.
//!
//! The title is the 1-based current layer; the menu lists the layers with
//! the active one marked, then settings, a way out when the keyboard tap is
//! down, reload and quit. Rendering the menu is the caller's.

use vstd::prelude::*;
use crate::text::{decimal, push_decimal, push_str};

verus! {

/// What a menu selection asks the daemon to do.
#[derive(Debug, Clone, Copy, PartialEq, Eq, Structural)]
pub enum TrayAction {
    SwitchLayer(usize),
    OpenSettings,
    ReloadNow,
    OpenAccessibility,
    Quit,
}

pub open spec fn tooltip_text(title: Seq<char>, tap_ok: bool) -> Seq<char> {
    if tap_ok {
        "Antiknob — layer "@ + title
    } else {
        "Antiknob — layer "@ + title + " (knob gestures off)"@
    }
}

/// The tooltip carries the tap's state, so a deaf daemon says so where the
/// user is already looking.
pub fn tooltip(title: &str, tap_ok: bool) -> (r: String)
    ensures
        r@ == tooltip_text(title@, tap_ok),
{
    let mut s = String::new();
    push_str(&mut s, "Antiknob — layer ");
    push_str(&mut s, title);
    if !tap_ok {
        push_str(&mut s, " (knob gestures off)");
    }
    s
}

pub open spec fn layer_label_text(idx: nat, name: Seq<char>, active: bool) -> Seq<char> {
    if active {
        decimal(idx + 1) + " "@ + name + " — active"@
    } else {
        decimal(idx + 1) + " "@ + name
    }
}

/// One layer's menu line: its 1-based number and name, marked when active.
pub fn layer_label(idx: usize, name: &str, active: bool) -> (r: String)
    requires
        idx < usize::MAX,
    ensures
        r@ == layer_label_text(idx as nat, name@, active),
{
    let mut s = String::new();
    push_decimal(&mut s, (idx + 1) as u128);
    push_str(&mut s, " ");
    push_str(&mut s, name);
    if active {
        push_str(&mut s, " — active");
    }
    s
}

/// One line of the menu.
#[derive(Debug, Clone, PartialEq, Eq)]
pub enum MenuEntry {
    /// A layer: its index and label.
    Layer(usize, String),
    Separator,
    /// "Open Antiknob Settings…"
    Settings,
    /// The way out when the keyboard tap is down.
    Fix,
    /// "Reload Config"
    Reload,
    Quit,
}

/// A menu line as the spec sees it: the layer index and label, or a tag.
pub open spec fn entry_view(e: MenuEntry) -> (int, Seq<char>) {
    match e {
        MenuEntry::Layer(i, label) => (i as int, label@),
        MenuEntry::Separator => (-1, Seq::empty()),
        MenuEntry::Settings => (-2, Seq::empty()),
        MenuEntry::Fix => (-3, Seq::empty()),
        MenuEntry::Reload => (-4, Seq::empty()),
        MenuEntry::Quit => (-5, Seq::empty()),
    }
}

pub open spec fn entry_views(v: Seq<MenuEntry>) -> Seq<(int, Seq<char>)> {
    v.map_values(|e: MenuEntry| entry_view(e))
}

/// The menu for these layer names: every layer, a separator, settings, a
/// separator, the fix line and its separator only while the tap is down,
/// reload, quit.
pub open spec fn menu_plan(names: Seq<Seq<char>>, active: nat, tap_ok: bool) -> Seq<(int, Seq<char>)> {
    Seq::new(names.len(), |i: int| (i, layer_label_text(i as nat, names[i], i == active)))
        + seq![(-1, Seq::empty()), (-2, Seq::empty()), (-1, Seq::empty())]
        + (if tap_ok { Seq::empty() } else { seq![(-3, Seq::empty()), (-1, Seq::empty())] })
        + seq![(-4, Seq::empty()), (-5, Seq::empty())]
}

fn push_entry(v: &mut Vec<MenuEntry>, e: MenuEntry)
    ensures
        entry_views(final(v)@) == entry_views(old(v)@).push(entry_view(e)),
{
    let ghost before = v@;
    v.push(e);
    assert(entry_views(v@) =~= entry_views(before).push(entry_view(e)));
}

/// The lines of the menu, in order.
pub fn menu_entries(names: &Vec<String>, active: usize, tap_ok: bool) -> (r: Vec<MenuEntry>)
    requires
        names.len() < usize::MAX,
    ensures
        entry_views(r@) == menu_plan(names@.map_values(|s: String| s@), active as nat, tap_ok),
{
    let ghost ns = names@.map_values(|s: String| s@);
    let ghost layers = Seq::new(ns.len(), |i: int| (i, layer_label_text(i as nat, ns[i], i == active)));
    let mut out: Vec<MenuEntry> = Vec::new();
    let mut i: usize = 0;
    while i < names.len()
        invariant
            i <= names.len(),
            names.len() < usize::MAX,
            ns == names@.map_values(|s: String| s@),
            layers == Seq::new(ns.len(), |i: int| (i, layer_label_text(i as nat, ns[i], i == active))),
            entry_views(out@) == layers.take(i as int),
        decreases names.len() - i,
    {
        let label = layer_label(i, names[i].as_str(), i == active);
        push_entry(&mut out, MenuEntry::Layer(i, label));
        assert(layers.take(i + 1) =~= layers.take(i as int).push(layers[i as int]));
        i = i + 1;
    }
    assert(layers.take(names.len() as int) =~= layers);
    push_entry(&mut out, MenuEntry::Separator);
    push_entry(&mut out, MenuEntry::Settings);
    push_entry(&mut out, MenuEntry::Separator);
    if !tap_ok {
        push_entry(&mut out, MenuEntry::Fix);
        push_entry(&mut out, MenuEntry::Separator);
    }
    push_entry(&mut out, MenuEntry::Reload);
    push_entry(&mut out, MenuEntry::Quit);
    assert(entry_views(out@) =~= menu_plan(ns, active as nat, tap_ok));
    out
}

pub open spec fn entry_action(e: MenuEntry) -> Option<TrayAction> {
    match e {
        MenuEntry::Layer(i, _) => Some(TrayAction::SwitchLayer(i)),
        MenuEntry::Separator => None,
        MenuEntry::Settings => Some(TrayAction::OpenSettings),
        MenuEntry::Fix => Some(TrayAction::OpenAccessibility),
        MenuEntry::Reload => Some(TrayAction::ReloadNow),
        MenuEntry::Quit => Some(TrayAction::Quit),
    }
}

/// What selecting a menu line asks for; a separator asks nothing.
pub fn action_for(e: &MenuEntry) -> (r: Option<TrayAction>)
    ensures
        r == entry_action(*e),
{
    match e {
        MenuEntry::Layer(i, _) => Some(TrayAction::SwitchLayer(*i)),
        MenuEntry::Separator => None,
        MenuEntry::Settings => Some(TrayAction::OpenSettings),
        MenuEntry::Fix => Some(TrayAction::OpenAccessibility),
        MenuEntry::Reload => Some(TrayAction::ReloadNow),
        MenuEntry::Quit => Some(TrayAction::Quit),
    }
}

} // verus!

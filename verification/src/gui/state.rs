//! The settings window's state: which layer and target are selected, the
//! layout being edited, and the status line.
//!
//! Every edit is bounds-checked: a stale selection on a missing layer is a
//! no-op, and selecting past the end of a knob list or a button row grows
//! it with unbound knobs and `none` buttons rather than failing.

use vstd::prelude::*;
use crate::binding::{Binding, binding_delay, binding_names, copy_string};
use crate::config::{DeviceConfig, KnobConfig, LayerConfig};
use crate::device::DeviceMatch;
use crate::fd::views;
use crate::text::{decimal, hex, push_decimal, push_hex, push_str};

verus! {

/// Which gesture of a knob is selected.
#[derive(Debug, Clone, Copy, PartialEq, Eq, Structural)]
pub enum KnobTarget {
    Ccw,
    Cw,
    Press,
    PressCcw,
    PressCw,
}

pub open spec fn target_label(t: KnobTarget) -> Seq<char> {
    match t {
        KnobTarget::Ccw => "Rotate CCW"@,
        KnobTarget::Cw => "Rotate CW"@,
        KnobTarget::Press => "Press Down"@,
        KnobTarget::PressCcw => "Press + Rotate CCW"@,
        KnobTarget::PressCw => "Press + Rotate CW"@,
    }
}

impl KnobTarget {
    pub fn label(&self) -> (r: &'static str)
        ensures
            r@ == target_label(*self),
    {
        match self {
            KnobTarget::Ccw => "Rotate CCW",
            KnobTarget::Cw => "Rotate CW",
            KnobTarget::Press => "Press Down",
            KnobTarget::PressCcw => "Press + Rotate CCW",
            KnobTarget::PressCw => "Press + Rotate CW",
        }
    }
}

/// What the editor is pointed at.
#[derive(Debug, Clone, Copy, PartialEq, Eq, Structural)]
pub enum Selection {
    Knob { index: usize, target: KnobTarget },
    Button { row: usize, col: usize },
}

#[derive(Debug, Clone, Copy, PartialEq, Eq, Structural)]
pub enum ActiveTab {
    Presets,
    Recorder,
    BaseKeys,
    Modifiers,
    Media,
    Led,
    Mouse,
    Procreate,
    Slots,
    Host,
}

pub struct GuiState {
    pub device: Option<DeviceMatch>,
    pub config: DeviceConfig,
    pub active_layer: usize,
    pub selected: Selection,
    pub active_tab: ActiveTab,
    pub status_message: String,
    pub status_is_ok: bool,
    pub led_mode: u8,
    pub led_color: String,
    pub is_recording: bool,
    pub recorded_shortcut: Option<String>,
    pub active_preset_id: Option<String>,
    pub profile_path: String,
}

/// A knob with nothing bound.
pub open spec fn unbound_knob() -> KnobConfig {
    KnobConfig { ccw: None, press: None, cw: None, hold_twist_l: None, hold_twist_r: None }
}

/// A binding, as the characters and numbers it carries.
pub open spec fn binding_view(b: Binding) -> (int, Seq<Seq<char>>, u16) {
    (match b {
        Binding::One(_) => 0int,
        Binding::Sequence(_) => 1int,
        Binding::Timed { .. } => 2int,
    }, binding_names(b), binding_delay(b))
}

/// A single-action binding naming `name`.
pub open spec fn is_one(b: Option<Binding>, name: Seq<char>) -> bool {
    b matches Some(Binding::One(s)) && s@ == name
}

/// The gesture a knob target edits; the hold+twist targets edit nothing.
pub open spec fn knob_slot(k: KnobConfig, t: KnobTarget) -> Option<Binding> {
    match t {
        KnobTarget::Ccw => k.ccw,
        KnobTarget::Cw => k.cw,
        KnobTarget::Press => k.press,
        _ => None,
    }
}

/// `new` is `old` with the target's gesture replaced by `b`, every other
/// gesture untouched; the hold+twist targets change nothing.
pub open spec fn knob_with(old: KnobConfig, new: KnobConfig, t: KnobTarget, b: spec_fn(Option<Binding>) -> bool) -> bool {
    match t {
        KnobTarget::Ccw => b(new.ccw) && new.press == old.press && new.cw == old.cw
            && new.hold_twist_l == old.hold_twist_l && new.hold_twist_r == old.hold_twist_r,
        KnobTarget::Cw => b(new.cw) && new.ccw == old.ccw && new.press == old.press
            && new.hold_twist_l == old.hold_twist_l && new.hold_twist_r == old.hold_twist_r,
        KnobTarget::Press => b(new.press) && new.ccw == old.ccw && new.cw == old.cw
            && new.hold_twist_l == old.hold_twist_l && new.hold_twist_r == old.hold_twist_r,
        _ => new == old,
    }
}

/// The knob list after knob `index` is edited: grown with unbound knobs
/// to reach it, every other knob untouched.
pub open spec fn knobs_with(old: Seq<KnobConfig>, new: Seq<KnobConfig>, index: int, t: KnobTarget, b: spec_fn(Option<Binding>) -> bool) -> bool {
    &&& new.len() == if index < old.len() { old.len() as int } else { index + 1 }
    &&& forall|k: int| 0 <= k < new.len() && k != index ==> #[trigger] new[k] == if k < old.len() { old[k] } else { unbound_knob() }
    &&& knob_with(if index < old.len() { old[index] } else { unbound_knob() }, new[index], t, b)
}

/// The button rows after the button at `(row, col)` is given `name`:
/// missing rows are added empty and a short row is padded with `none`.
pub open spec fn buttons_with(old: Seq<Vec<String>>, new: Seq<Vec<String>>, row: int, col: int, name: Seq<char>) -> bool {
    let old_row: Seq<String> = if row < old.len() { old[row]@ } else { Seq::empty() };
    &&& new.len() == if row < old.len() { old.len() as int } else { row + 1 }
    &&& forall|r: int| 0 <= r < new.len() && r != row ==> if r < old.len() {
        #[trigger] new[r] == old[r]
    } else {
        new[r]@.len() == 0
    }
    &&& new[row]@.len() == if col < old_row.len() { old_row.len() as int } else { col + 1 }
    &&& forall|c: int| 0 <= c < new[row]@.len() && c != col ==> if c < old_row.len() {
        #[trigger] new[row]@[c] == old_row[c]
    } else {
        new[row]@[c]@ == "none"@
    }
    &&& new[row]@[col]@ == name
}

/// The layer after the selection is bound (or cleared, for `b`).
pub open spec fn layer_with(old: LayerConfig, new: LayerConfig, sel: Selection, name: Seq<char>) -> bool {
    new.led == old.led && match sel {
        Selection::Knob { index, target } => new.buttons == old.buttons
            && knobs_with(old.knobs@, new.knobs@, index as int, target, |b: Option<Binding>| is_one(b, name)),
        Selection::Button { row, col } => new.knobs == old.knobs
            && buttons_with(old.buttons@, new.buttons@, row as int, col as int, name),
    }
}

/// Everything but the layers and the status line is untouched.
pub open spec fn same_but_layers(a: GuiState, b: GuiState) -> bool {
    &&& a.device == b.device
    &&& a.config.model == b.config.model
    &&& a.config.orientation == b.config.orientation
    &&& a.config.rows == b.config.rows
    &&& a.config.columns == b.config.columns
    &&& a.config.knobs == b.config.knobs
    &&& a.active_layer == b.active_layer
    &&& a.selected == b.selected
    &&& a.active_tab == b.active_tab
    &&& a.led_mode == b.led_mode
    &&& a.led_color == b.led_color
    &&& a.is_recording == b.is_recording
    &&& a.recorded_shortcut == b.recorded_shortcut
    &&& a.active_preset_id == b.active_preset_id
    &&& a.profile_path == b.profile_path
}

/// Every layer but `a` is untouched.
pub open spec fn other_layers_same(old: Seq<LayerConfig>, new: Seq<LayerConfig>, a: int) -> bool {
    new.len() == old.len() && forall|l: int| 0 <= l < old.len() && l != a ==> #[trigger] new[l] == old[l]
}

pub open spec fn set_message(name: Seq<char>) -> Seq<char> {
    "Set binding to \""@ + name + "\""@
}

fn owned(s: &str) -> (r: String)
    ensures
        r@ == s@,
{
    String::from_str(s)
}

/// Copy a binding.
pub fn copy_binding(b: &Binding) -> (r: Binding)
    ensures
        binding_view(r) == binding_view(*b),
{
    match b {
        Binding::One(s) => Binding::One(copy_string(s)),
        Binding::Sequence(v) => {
            let c = copy_strings(v);
            Binding::Sequence(c)
        },
        Binding::Timed { steps, delay_ms } => {
            let c = copy_strings(steps);
            Binding::Timed { steps: c, delay_ms: *delay_ms }
        },
    }
}

fn copy_strings(v: &Vec<String>) -> (r: Vec<String>)
    ensures
        views(r@) == views(v@),
{
    let mut out: Vec<String> = Vec::new();
    let mut i: usize = 0;
    while i < v.len()
        invariant
            i <= v.len(),
            views(out@) == views(v@.take(i as int)),
        decreases v.len() - i,
    {
        let ghost before = out@;
        let s = copy_string(&v[i]);
        out.push(s);
        assert(views(out@) =~= views(v@.take(i + 1))) by {
            assert(views(out@) =~= views(before).push(s@));
            assert(views(v@.take(i + 1)) =~= views(v@.take(i as int)).push(v@[i as int]@));
        }
        i = i + 1;
    }
    assert(v@.take(v.len() as int) =~= v@);
    out
}

/// Set one gesture of a knob to `b`; the hold+twist targets are not edited.
fn set_gesture(knob: &mut KnobConfig, target: KnobTarget, b: Option<Binding>)
    ensures
        knob_with(*old(knob), *final(knob), target, |x: Option<Binding>| x == b),
{
    match target {
        KnobTarget::Ccw => knob.ccw = b,
        KnobTarget::Cw => knob.cw = b,
        KnobTarget::Press => knob.press = b,
        KnobTarget::PressCcw => {},
        KnobTarget::PressCw => {},
    }
}

/// Put a knob back into a list at the position it was taken from.
fn edit_knob(knobs: &mut Vec<KnobConfig>, index: usize, target: KnobTarget, b: Option<Binding>)
    ensures
        knobs_with(old(knobs)@, final(knobs)@, index as int, target, |x: Option<Binding>| x == b),
{
    let ghost start = knobs@;
    if knobs.len() <= index {
        while knobs.len() <= index
            invariant
                start.len() <= index,
                knobs@.len() <= index + 1,
                knobs@.len() >= start.len(),
                forall|k: int| 0 <= k < knobs@.len() ==> #[trigger] knobs@[k] == if k < start.len() { start[k] } else { unbound_knob() },
            decreases index + 1 - knobs.len(),
        {
            knobs.push(KnobConfig::unbound());
        }
    }
    assert(knobs@.len() == if (index as int) < start.len() { start.len() as int } else { index + 1 });
    let ghost grown = knobs@;
    let mut knob = knobs.remove(index);
    set_gesture(&mut knob, target, b);
    knobs.insert(index, knob);
    assert forall|k: int| 0 <= k < knobs@.len() && k != index implies #[trigger] knobs@[k] == (if k < start.len() { start[k] } else { unbound_knob() }) by {
        if k < index {
            assert(knobs@[k] == grown[k]);
        } else {
            assert(knobs@[k] == grown[k]);
        }
    }
}

/// `after` is `before` with only the status line changed: to `message`, and
/// marked ok or not.
pub open spec fn reported(before: GuiState, after: GuiState, ok: bool, message: Seq<char>) -> bool {
    &&& after == GuiState { status_message: after.status_message, status_is_ok: ok, ..before }
    &&& after.status_message@ == message
}

/// The number the status line gives the active layer: it is sent to the
/// device as a byte.
pub open spec fn layer_number(active_layer: usize) -> nat {
    (active_layer as u8) as nat
}

/// The LED spec a mode and colour make: `mode<n> <colour>`.
pub open spec fn led_spec_text(mode: u8, color: Seq<char>) -> Seq<char> {
    "mode"@ + decimal(mode as nat) + " "@ + color
}

/// `after` is `before` with `key` recorded: bound to the selection on the
/// active layer, kept as the recorded shortcut, and the recording ended.
pub open spec fn recorded_as(before: GuiState, after: GuiState, key: Seq<char>) -> bool {
    &&& before.active_layer < before.config.layers@.len() ==> {
        &&& other_layers_same(before.config.layers@, after.config.layers@, before.active_layer as int)
        &&& layer_with(before.config.layers@[before.active_layer as int],
            after.config.layers@[before.active_layer as int], before.selected, key)
    }
    &&& before.active_layer >= before.config.layers@.len() ==> after.config == before.config
    &&& (after.recorded_shortcut matches Some(s) && s@ == key)
    &&& !after.is_recording
    &&& after.status_message@ == assigned_message(key)
    &&& after.status_is_ok
    &&& after.active_layer == before.active_layer
    &&& after.selected == before.selected
}

impl GuiState {
    /// The state a fresh window starts in: no device yet (the first scan
    /// follows construction), the built-in three-layer layout, the first
    /// knob's press selected.
    pub fn new() -> (s: Self)
        ensures
            s.device.is_none(),
            s.active_layer == 0,
            s.selected == (Selection::Knob { index: 0, target: KnobTarget::Press }),
            s.active_tab == ActiveTab::Presets,
            s.status_message@ == "Scanning for Anticater VK01 USB device..."@,
            s.status_is_ok,
            s.led_mode == 1,
            s.led_color@ == "white"@,
            !s.is_recording,
            s.recorded_shortcut.is_none(),
            (s.active_preset_id matches Some(p) && p@ == "media_master"@),
            s.profile_path@ == "config.yaml"@,
            s.config.layers@.len() == 3,
            s.config.rows == 1 && s.config.columns == 1 && s.config.knobs == 1,
    {
        GuiState {
            device: None,
            config: default_device_config(),
            active_layer: 0,
            selected: Selection::Knob { index: 0, target: KnobTarget::Press },
            active_tab: ActiveTab::Presets,
            status_message: owned("Scanning for Anticater VK01 USB device..."),
            status_is_ok: true,
            led_mode: 1,
            led_color: owned("white"),
            is_recording: false,
            recorded_shortcut: None,
            active_preset_id: Some(owned("media_master")),
            profile_path: owned("config.yaml"),
        }
    }

    /// What the selection is bound to on the active layer: a knob's
    /// gesture, or a button's action as a single-action binding. Nothing
    /// for a missing layer, knob or button, and nothing for the hold+twist
    /// targets, which this editor does not show.
    pub fn get_binding(&self, sel: Selection) -> (r: Option<Binding>)
        ensures
            match r {
                None => !(self.active_layer < self.config.layers@.len() && match sel {
                    Selection::Knob { index, target } => index < self.config.layers@[self.active_layer as int].knobs@.len()
                        && knob_slot(self.config.layers@[self.active_layer as int].knobs@[index as int], target) is Some,
                    Selection::Button { row, col } => row < self.config.layers@[self.active_layer as int].buttons@.len()
                        && col < self.config.layers@[self.active_layer as int].buttons@[row as int]@.len(),
                }),
                Some(b) => self.active_layer < self.config.layers@.len() && match sel {
                    Selection::Knob { index, target } => index < self.config.layers@[self.active_layer as int].knobs@.len()
                        && (knob_slot(self.config.layers@[self.active_layer as int].knobs@[index as int], target) matches Some(k)
                        && binding_view(b) == binding_view(k)),
                    Selection::Button { row, col } => row < self.config.layers@[self.active_layer as int].buttons@.len()
                        && col < self.config.layers@[self.active_layer as int].buttons@[row as int]@.len()
                        && b is One && binding_names(b) == seq![self.config.layers@[self.active_layer as int].buttons@[row as int]@[col as int]@],
                },
            },
    {
        if self.active_layer >= self.config.layers.len() {
            return None;
        }
        let layer = &self.config.layers[self.active_layer];
        match sel {
            Selection::Knob { index, target } => {
                if index >= layer.knobs.len() {
                    return None;
                }
                let knob = &layer.knobs[index];
                let slot = match target {
                    KnobTarget::Ccw => &knob.ccw,
                    KnobTarget::Cw => &knob.cw,
                    KnobTarget::Press => &knob.press,
                    _ => return None,
                };
                match slot {
                    Some(b) => Some(copy_binding(b)),
                    None => None,
                }
            },
            Selection::Button { row, col } => {
                if row >= layer.buttons.len() || col >= layer.buttons[row].len() {
                    return None;
                }
                let b = Binding::One(copy_string(&layer.buttons[row][col]));
                assert(binding_names(b) =~= seq![layer.buttons@[row as int]@[col as int]@]);
                Some(b)
            },
        }
    }

    /// Bind the selection on the active layer to one action. A missing
    /// layer is a no-op; a knob or button past the end of its list is
    /// created (unbound knobs, `none` buttons) on the way.
    pub fn set_binding(&mut self, action_str: &str)
        ensures
            old(self).active_layer >= old(self).config.layers@.len() ==> *final(self) == *old(self),
            old(self).active_layer < old(self).config.layers@.len() ==> {
                &&& same_but_layers(*old(self), *final(self))
                &&& other_layers_same(old(self).config.layers@, final(self).config.layers@, old(self).active_layer as int)
                &&& layer_with(old(self).config.layers@[old(self).active_layer as int],
                    final(self).config.layers@[old(self).active_layer as int], old(self).selected, action_str@)
                &&& final(self).status_message@ == set_message(action_str@)
                &&& final(self).status_is_ok
            },
    {
        if self.active_layer >= self.config.layers.len() {
            return;
        }
        let a = self.active_layer;
        let ghost start = self.config.layers@;
        let mut layer = self.config.layers.remove(a);
        let ghost old_layer = layer;
        match self.selected {
            Selection::Knob { index, target } => {
                let b = Binding::One(owned(action_str));
                edit_knob(&mut layer.knobs, index, target, Some(b));
                assert(knobs_with(old_layer.knobs@, layer.knobs@, index as int, target, |x: Option<Binding>| is_one(x, action_str@))) by {
                    let ks = layer.knobs@;
                    let base = if (index as int) < old_layer.knobs@.len() { old_layer.knobs@[index as int] } else { unbound_knob() };
                    assert(knob_with(base, ks[index as int], target, |x: Option<Binding>| x == Some(b)));
                }
            },
            Selection::Button { row, col } => {
                edit_button(&mut layer.buttons, row, col, action_str);
            },
        }
        self.config.layers.insert(a, layer);
        assert forall|l: int| 0 <= l < start.len() && l != a implies #[trigger] self.config.layers@[l] == start[l] by {
        }
        let mut m = String::new();
        push_str(&mut m, "Set binding to \"");
        push_str(&mut m, action_str);
        push_str(&mut m, "\"");
        self.status_message = m;
        self.status_is_ok = true;
    }
}

/// Give the button at `(row, col)` an action name, growing the rows.
fn edit_button(rows: &mut Vec<Vec<String>>, row: usize, col: usize, name: &str)
    ensures
        buttons_with(old(rows)@, final(rows)@, row as int, col as int, name@),
{
    let ghost start = rows@;
    if rows.len() <= row {
        while rows.len() <= row
            invariant
                start.len() <= row,
                rows@.len() <= row + 1,
                rows@.len() >= start.len(),
                forall|r: int| 0 <= r < rows@.len() ==> if r < start.len() {
                    #[trigger] rows@[r] == start[r]
                } else {
                    rows@[r]@.len() == 0
                },
            decreases row + 1 - rows.len(),
        {
            rows.push(Vec::new());
        }
    }
    assert(rows@.len() == if (row as int) < start.len() { start.len() as int } else { row + 1 });
    let ghost grown = rows@;
    let mut r = rows.remove(row);
    let ghost old_row = r@;
    assert(old_row == if (row as int) < start.len() { start[row as int]@ } else { Seq::<String>::empty() });
    while r.len() <= col
        invariant
            old_row.len() <= r@.len(),
            r@.len() <= if col < old_row.len() { old_row.len() as int } else { col + 1 },
            forall|c: int| 0 <= c < r@.len() ==> if c < old_row.len() {
                #[trigger] r@[c] == old_row[c]
            } else {
                r@[c]@ == "none"@
            },
        decreases col + 1 - r.len(),
    {
        r.push(owned("none"));
    }
    let ghost padded = r@;
    let _ = r.remove(col);
    r.insert(col, owned(name));
    assert forall|c: int| 0 <= c < r@.len() && c != col implies (if c < old_row.len() {
        #[trigger] r@[c] == old_row[c]
    } else {
        r@[c]@ == "none"@
    }) by {
        assert(r@[c] == padded[c]);
    }
    rows.insert(row, r);
    assert forall|x: int| 0 <= x < rows@.len() && x != row implies (if x < start.len() {
        #[trigger] rows@[x] == start[x]
    } else {
        rows@[x]@.len() == 0
    }) by {
        assert(rows@[x] == grown[x]);
    }
}

fn default_layer(button: &str, ccw: &str, press: &str, cw: &str, led: &str) -> (l: LayerConfig)
    ensures
        l.buttons@.len() == 1 && l.buttons@[0]@.len() == 1 && l.buttons@[0]@[0]@ == button@,
        l.knobs@.len() == 1,
        is_one(l.knobs@[0].ccw, ccw@) && is_one(l.knobs@[0].press, press@) && is_one(l.knobs@[0].cw, cw@),
        l.knobs@[0].hold_twist_l.is_none() && l.knobs@[0].hold_twist_r.is_none(),
        (l.led matches Some(s) && s@ == led@),
{
    LayerConfig {
        buttons: vec![vec![owned(button)]],
        knobs: vec![KnobConfig {
            ccw: Some(Binding::One(owned(ccw))),
            press: Some(Binding::One(owned(press))),
            cw: Some(Binding::One(owned(cw))),
            hold_twist_l: None,
            hold_twist_r: None,
        }],
        led: Some(owned(led)),
    }
}

/// The layout a fresh window edits: one button and one knob over three
/// layers (volume, scrolling, brightness).
pub fn default_device_config() -> (r: DeviceConfig)
    ensures
        r.model@ == "Anticater VK01"@,
        r.orientation@ == "normal"@,
        r.rows == 1 && r.columns == 1 && r.knobs == 1,
        r.layers@.len() == 3,
{
    DeviceConfig {
        model: owned("Anticater VK01"),
        orientation: owned("normal"),
        rows: 1,
        columns: 1,
        knobs: 1,
        layers: vec![
            default_layer("space", "volumedown", "mute", "volumeup", "backlight white"),
            default_layer("enter", "wheeldown", "mclick", "wheelup", "shock blue"),
            default_layer("cmd+z", "brightnessdown", "play", "brightnessup", "backlight green"),
        ],
    }
}

/// The layer after the selection is cleared: a knob gesture unbound, a
/// button set to `none`; a selection past the end changes nothing.
pub open spec fn layer_cleared(old: LayerConfig, new: LayerConfig, sel: Selection) -> bool {
    new.led == old.led && match sel {
        Selection::Knob { index, target } => new.buttons == old.buttons && if index < old.knobs@.len() {
            new.knobs@.len() == old.knobs@.len()
                && (forall|k: int| 0 <= k < old.knobs@.len() && k != index ==> #[trigger] new.knobs@[k] == old.knobs@[k])
                && knob_with(old.knobs@[index as int], new.knobs@[index as int], target, |x: Option<Binding>| x.is_none())
        } else {
            new.knobs == old.knobs
        },
        Selection::Button { row, col } => new.knobs == old.knobs && if row < old.buttons@.len() && col < old.buttons@[row as int]@.len() {
            buttons_with(old.buttons@, new.buttons@, row as int, col as int, "none"@)
        } else {
            new.buttons == old.buttons
        },
    }
}

/// The layer after every binding on it is cleared: each knob's twist and
/// press unbound (hold+twist untouched), every button `none`.
pub open spec fn layer_all_cleared(old: LayerConfig, new: LayerConfig) -> bool {
    &&& new.led == old.led
    &&& new.knobs@.len() == old.knobs@.len()
    &&& forall|k: int| 0 <= k < old.knobs@.len() ==> {
        &&& (#[trigger] new.knobs@[k]).ccw.is_none() && new.knobs@[k].cw.is_none() && new.knobs@[k].press.is_none()
        &&& new.knobs@[k].hold_twist_l == old.knobs@[k].hold_twist_l
        &&& new.knobs@[k].hold_twist_r == old.knobs@[k].hold_twist_r
    }
    &&& new.buttons@.len() == old.buttons@.len()
    &&& forall|r: int| 0 <= r < old.buttons@.len() ==> (#[trigger] new.buttons@[r])@.len() == old.buttons@[r]@.len()
        && forall|c: int| 0 <= c < new.buttons@[r]@.len() ==> (#[trigger] new.buttons@[r]@[c])@ == "none"@
}

fn clear_knob(knobs: &mut Vec<KnobConfig>, index: usize, target: KnobTarget)
    ensures
        if index < old(knobs)@.len() {
            final(knobs)@.len() == old(knobs)@.len()
                && (forall|k: int| 0 <= k < old(knobs)@.len() && k != index ==> #[trigger] final(knobs)@[k] == old(knobs)@[k])
                && knob_with(old(knobs)@[index as int], final(knobs)@[index as int], target, |x: Option<Binding>| x.is_none())
        } else {
            *final(knobs) == *old(knobs)
        },
{
    if index < knobs.len() {
        let ghost start = knobs@;
        let mut knob = knobs.remove(index);
        set_gesture(&mut knob, target, None);
        knobs.insert(index, knob);
        assert forall|k: int| 0 <= k < start.len() && k != index implies #[trigger] knobs@[k] == start[k] by {}
    }
}

fn clear_button(rows: &mut Vec<Vec<String>>, row: usize, col: usize)
    ensures
        if row < old(rows)@.len() && col < old(rows)@[row as int]@.len() {
            buttons_with(old(rows)@, final(rows)@, row as int, col as int, "none"@)
        } else {
            *final(rows) == *old(rows)
        },
{
    if row < rows.len() && col < rows[row].len() {
        edit_button(rows, row, col, "none");
    }
}

fn clear_layer(layer: &mut LayerConfig)
    ensures
        layer_all_cleared(*old(layer), *final(layer)),
{
    let ghost start = *layer;
    let mut k: usize = 0;
    while k < layer.knobs.len()
        invariant
            k <= layer.knobs@.len(),
            layer.knobs@.len() == start.knobs@.len(),
            layer.buttons == start.buttons,
            layer.led == start.led,
            forall|j: int| 0 <= j < k ==> {
                &&& (#[trigger] layer.knobs@[j]).ccw.is_none() && layer.knobs@[j].cw.is_none() && layer.knobs@[j].press.is_none()
                &&& layer.knobs@[j].hold_twist_l == start.knobs@[j].hold_twist_l
                &&& layer.knobs@[j].hold_twist_r == start.knobs@[j].hold_twist_r
            },
            forall|j: int| k <= j < layer.knobs@.len() ==> #[trigger] layer.knobs@[j] == start.knobs@[j],
        decreases layer.knobs.len() - k,
    {
        let ghost before = layer.knobs@;
        let mut knob = layer.knobs.remove(k);
        knob.ccw = None;
        knob.cw = None;
        knob.press = None;
        layer.knobs.insert(k, knob);
        assert forall|j: int| 0 <= j < layer.knobs@.len() && j != k implies #[trigger] layer.knobs@[j] == before[j] by {}
        k = k + 1;
    }
    let mut r: usize = 0;
    while r < layer.buttons.len()
        invariant
            r <= layer.buttons@.len(),
            layer.buttons@.len() == start.buttons@.len(),
            layer.led == start.led,
            layer.knobs@.len() == start.knobs@.len(),
            forall|j: int| 0 <= j < start.knobs@.len() ==> {
                &&& (#[trigger] layer.knobs@[j]).ccw.is_none() && layer.knobs@[j].cw.is_none() && layer.knobs@[j].press.is_none()
                &&& layer.knobs@[j].hold_twist_l == start.knobs@[j].hold_twist_l
                &&& layer.knobs@[j].hold_twist_r == start.knobs@[j].hold_twist_r
            },
            forall|x: int| 0 <= x < r ==> (#[trigger] layer.buttons@[x])@.len() == start.buttons@[x]@.len()
                && forall|c: int| 0 <= c < layer.buttons@[x]@.len() ==> (#[trigger] layer.buttons@[x]@[c])@ == "none"@,
            forall|x: int| r <= x < layer.buttons@.len() ==> #[trigger] layer.buttons@[x] == start.buttons@[x],
        decreases layer.buttons.len() - r,
    {
        let ghost before = layer.buttons@;
        let row = layer.buttons.remove(r);
        let n: usize = row.len();
        let mut fresh: Vec<String> = Vec::new();
        let mut c: usize = 0;
        while c < n
            invariant
                c <= n,
                fresh@.len() == c,
                forall|j: int| 0 <= j < c ==> (#[trigger] fresh@[j])@ == "none"@,
            decreases n - c,
        {
            fresh.push(owned("none"));
            c = c + 1;
        }
        layer.buttons.insert(r, fresh);
        assert forall|x: int| 0 <= x < layer.buttons@.len() && x != r implies #[trigger] layer.buttons@[x] == before[x] by {}
        r = r + 1;
    }
}

pub open spec fn cleared_all_message(layer: nat) -> Seq<char> {
    "Cleared all bindings on Layer "@ + decimal(layer)
}

pub open spec fn assigned_message(name: Seq<char>) -> Seq<char> {
    "Assigned '"@ + name + "' to selected target"@
}

/// What a device scan reports on the status line.
pub open spec fn scan_message(first: Option<DeviceMatch>) -> Seq<char> {
    match first {
        Some(d) => "Connected: "@ + d.name@ + " (VID: 0x"@ + hex(d.vendor_id as nat, 4) + ", PID: 0x"@
            + hex(d.product_id as nat, 4) + ")"@,
        None => "No device detected. Connect Anticater VK01 via USB."@,
    }
}

impl GuiState {
    /// Clear the selection's binding on the active layer.
    pub fn clear_current(&mut self)
        ensures
            old(self).active_layer >= old(self).config.layers@.len() ==> *final(self) == *old(self),
            old(self).active_layer < old(self).config.layers@.len() ==> {
                &&& same_but_layers(*old(self), *final(self))
                &&& final(self).status_is_ok == old(self).status_is_ok
                &&& other_layers_same(old(self).config.layers@, final(self).config.layers@, old(self).active_layer as int)
                &&& layer_cleared(old(self).config.layers@[old(self).active_layer as int],
                    final(self).config.layers@[old(self).active_layer as int], old(self).selected)
                &&& final(self).status_message@ == "Cleared current key binding"@
            },
    {
        if self.active_layer >= self.config.layers.len() {
            return;
        }
        let a = self.active_layer;
        let ghost start = self.config.layers@;
        let mut layer = self.config.layers.remove(a);
        match self.selected {
            Selection::Knob { index, target } => clear_knob(&mut layer.knobs, index, target),
            Selection::Button { row, col } => clear_button(&mut layer.buttons, row, col),
        }
        self.config.layers.insert(a, layer);
        assert forall|l: int| 0 <= l < start.len() && l != a implies #[trigger] self.config.layers@[l] == start[l] by {}
        self.status_message = owned("Cleared current key binding");
    }

    /// Clear every binding on the active layer. The status line says so
    /// even when the layer does not exist.
    pub fn clear_all_on_layer(&mut self)
        ensures
            same_but_layers(*old(self), *final(self)),
            final(self).status_is_ok == old(self).status_is_ok,
            final(self).status_message@ == cleared_all_message(old(self).active_layer as nat),
            old(self).active_layer >= old(self).config.layers@.len() ==> final(self).config.layers == old(self).config.layers,
            old(self).active_layer < old(self).config.layers@.len() ==> {
                &&& other_layers_same(old(self).config.layers@, final(self).config.layers@, old(self).active_layer as int)
                &&& layer_all_cleared(old(self).config.layers@[old(self).active_layer as int],
                    final(self).config.layers@[old(self).active_layer as int])
            },
    {
        if self.active_layer < self.config.layers.len() {
            let a = self.active_layer;
            let ghost start = self.config.layers@;
            let mut layer = self.config.layers.remove(a);
            clear_layer(&mut layer);
            self.config.layers.insert(a, layer);
            assert forall|l: int| 0 <= l < start.len() && l != a implies #[trigger] self.config.layers@[l] == start[l] by {}
        }
        let mut m = String::new();
        push_str(&mut m, "Cleared all bindings on Layer ");
        push_decimal(&mut m, self.active_layer as u128);
        self.status_message = m;
    }

    /// The LED spec the lighting controls stand for: `mode<n> <colour>`.
    pub fn led_spec(&self) -> (r: String)
        ensures
            r@ == led_spec_text(self.led_mode, self.led_color@),
    {
        let mut s = String::new();
        push_str(&mut s, "mode");
        push_decimal(&mut s, self.led_mode as u128);
        push_str(&mut s, " ");
        push_str(&mut s, self.led_color.as_str());
        s
    }

    /// Report sending the active layer's LED spec `spec` to the ring. The
    /// layer stays active whatever came back.
    pub fn sync_layer_led(&mut self, spec: &str, sent: Result<(), String>)
        ensures
            match sent {
                Ok(()) => reported(*old(self), *final(self), true,
                    "Layer "@ + decimal(layer_number(old(self).active_layer)) + " active, LED synced ("@ + spec@ + ")"@),
                Err(e) => reported(*old(self), *final(self), false,
                    "Layer "@ + decimal(layer_number(old(self).active_layer)) + " active, LED sync failed: "@ + e@),
            },
    {
        #[verifier::truncate]
        let layer: u8 = self.active_layer as u8;
        let mut m = String::new();
        push_str(&mut m, "Layer ");
        push_decimal(&mut m, layer as u128);
        match sent {
            Ok(()) => {
                push_str(&mut m, " active, LED synced (");
                push_str(&mut m, spec);
                push_str(&mut m, ")");
                self.status_is_ok = true;
            },
            Err(e) => {
                push_str(&mut m, " active, LED sync failed: ");
                push_str(&mut m, e.as_str());
                self.status_is_ok = false;
            },
        }
        self.status_message = m;
    }

    /// Report sending the lighting controls' spec (`led_spec`) to the ring.
    pub fn apply_led_to_device(&mut self, sent: Result<(), String>)
        ensures
            match sent {
                Ok(()) => reported(*old(self), *final(self), true,
                    "LED lighting applied: "@ + led_spec_text(old(self).led_mode, old(self).led_color@)),
                Err(e) => reported(*old(self), *final(self), false, "Failed to set LED: "@ + e@),
            },
    {
        let mut m = String::new();
        match sent {
            Ok(()) => {
                let spec = self.led_spec();
                push_str(&mut m, "LED lighting applied: ");
                push_str(&mut m, spec.as_str());
                self.status_is_ok = true;
            },
            Err(e) => {
                push_str(&mut m, "Failed to set LED: ");
                push_str(&mut m, e.as_str());
                self.status_is_ok = false;
            },
        }
        self.status_message = m;
    }

    /// Report flashing the slot bindings: how many packets went out, or why
    /// none could.
    pub fn restore_slot_bindings(&mut self, flashed: Result<usize, String>)
        ensures
            match flashed {
                Ok(n) => reported(*old(self), *final(self), true,
                    "Slot bindings restored ("@ + decimal(n as nat) + " packets). Verify with: antiknob listen"@),
                Err(e) => reported(*old(self), *final(self), false, "Slot binding flash failed: "@ + e@),
            },
    {
        let mut m = String::new();
        match flashed {
            Ok(n) => {
                push_str(&mut m, "Slot bindings restored (");
                push_decimal(&mut m, n as u128);
                push_str(&mut m, " packets). Verify with: antiknob listen");
                self.status_is_ok = true;
            },
            Err(e) => {
                push_str(&mut m, "Slot binding flash failed: ");
                push_str(&mut m, e.as_str());
                self.status_is_ok = false;
            },
        }
        self.status_message = m;
    }

    /// Report exporting the presets as a host config at `path`: the layers
    /// written and the button warnings, or the failure.
    pub fn export_presets_to_host(&mut self, path: &str, exported: Result<(usize, usize), String>)
        ensures
            match exported {
                Ok((layers, warnings)) => reported(*old(self), *final(self), true,
                    "Exported "@ + decimal(layers as nat) + " preset layers to "@ + path@ + " ("@
                        + decimal(warnings as nat) + " button warning(s))"@),
                Err(e) => reported(*old(self), *final(self), false, "Export failed: "@ + e@),
            },
    {
        let mut m = String::new();
        match exported {
            Ok((layers, warnings)) => {
                push_str(&mut m, "Exported ");
                push_decimal(&mut m, layers as u128);
                push_str(&mut m, " preset layers to ");
                push_str(&mut m, path);
                push_str(&mut m, " (");
                push_decimal(&mut m, warnings as u128);
                push_str(&mut m, " button warning(s))");
                self.status_is_ok = true;
            },
            Err(e) => {
                push_str(&mut m, "Export failed: ");
                push_str(&mut m, e.as_str());
                self.status_is_ok = false;
            },
        }
        self.status_message = m;
    }

    /// Report flashing the active layer: how many actions were written, or
    /// why the flash failed.
    pub fn save_to_device(&mut self, flashed: Result<usize, String>)
        ensures
            match flashed {
                Ok(n) => reported(*old(self), *final(self), true,
                    "Successfully flashed "@ + decimal(n as nat) + " actions to Layer "@
                        + decimal(layer_number(old(self).active_layer)) + " (No sudo)!"@),
                Err(e) => reported(*old(self), *final(self), false, "Flashing failed: "@ + e@),
            },
    {
        #[verifier::truncate]
        let layer: u8 = self.active_layer as u8;
        let mut m = String::new();
        match flashed {
            Ok(n) => {
                push_str(&mut m, "Successfully flashed ");
                push_decimal(&mut m, n as u128);
                push_str(&mut m, " actions to Layer ");
                push_decimal(&mut m, layer as u128);
                push_str(&mut m, " (No sudo)!");
                self.status_is_ok = true;
            },
            Err(e) => {
                push_str(&mut m, "Flashing failed: ");
                push_str(&mut m, e.as_str());
                self.status_is_ok = false;
            },
        }
        self.status_message = m;
    }

    /// A recorded shortcut binds the selection and ends the recording.
    pub fn record_key(&mut self, key_str: &str)
        ensures
            recorded_as(*old(self), *final(self), key_str@),
    {
        self.set_binding(key_str);
        self.recorded_shortcut = Some(owned(key_str));
        self.is_recording = false;
        let mut m = String::new();
        push_str(&mut m, "Assigned '");
        push_str(&mut m, key_str);
        push_str(&mut m, "' to selected target");
        self.status_message = m;
        self.status_is_ok = true;
    }

    /// Make `layer` the active one. The layer's LED spec, if it has one, is
    /// returned so the caller can push it to the ring.
    pub fn switch_layer(&mut self, layer: usize) -> (led: Option<String>)
        ensures
            final(self).active_layer == layer,
            final(self).config == old(self).config,
            final(self).status_message == old(self).status_message,
            match led {
                Some(s) => layer < old(self).config.layers@.len()
                    && (old(self).config.layers@[layer as int].led matches Some(l) && l@ == s@),
                None => !(layer < old(self).config.layers@.len() && old(self).config.layers@[layer as int].led is Some),
            },
    {
        self.active_layer = layer;
        if layer < self.config.layers.len() {
            match &self.config.layers[layer].led {
                Some(l) => Some(copy_string(l)),
                None => None,
            }
        } else {
            None
        }
    }

    /// Take the result of a device scan: the first device found is the one
    /// shown; none found, or a failed scan, is reported as not OK.
    pub fn refresh_device(&mut self, scan: Result<Vec<DeviceMatch>, String>)
        ensures
            final(self).config == old(self).config,
            final(self).active_layer == old(self).active_layer,
            match scan {
                Ok(devs) => {
                    &&& final(self).status_message@ == scan_message(if devs@.len() > 0 { Some(devs@[0]) } else { None })
                    &&& final(self).status_is_ok == (devs@.len() > 0)
                    &&& final(self).device == if devs@.len() > 0 { Some(devs@[0]) } else { None }
                },
                Err(e) => {
                    &&& final(self).status_message@ == "Error scanning USB devices: "@ + e@
                    &&& !final(self).status_is_ok
                    &&& final(self).device == old(self).device
                },
            },
    {
        match scan {
            Ok(mut devs) => {
                if devs.len() > 0 {
                    let dev = devs.remove(0);
                    let mut m = String::new();
                    push_str(&mut m, "Connected: ");
                    push_str(&mut m, dev.name.as_str());
                    push_str(&mut m, " (VID: 0x");
                    push_hex(&mut m, dev.vendor_id as u64, 4);
                    push_str(&mut m, ", PID: 0x");
                    push_hex(&mut m, dev.product_id as u64, 4);
                    push_str(&mut m, ")");
                    assert(m@ =~= scan_message(Some(dev)));
                    self.status_message = m;
                    self.status_is_ok = true;
                    self.device = Some(dev);
                } else {
                    self.status_message = owned("No device detected. Connect Anticater VK01 via USB.");
                    self.status_is_ok = false;
                    self.device = None;
                }
            },
            Err(e) => {
                let mut m = String::new();
                push_str(&mut m, "Error scanning USB devices: ");
                push_str(&mut m, e.as_str());
                self.status_message = m;
                self.status_is_ok = false;
            },
        }
    }

    /// Take a layout loaded from `path`.
    pub fn load_profile(&mut self, cfg: DeviceConfig, path: &str)
        ensures
            final(self).config == cfg,
            final(self).profile_path@ == path@,
            final(self).status_message@ == "Loaded profile from "@ + path@,
            final(self).status_is_ok,
            final(self).active_layer == old(self).active_layer,
    {
        self.config = cfg;
        self.profile_path = owned(path);
        let mut m = String::new();
        push_str(&mut m, "Loaded profile from ");
        push_str(&mut m, path);
        self.status_message = m;
        self.status_is_ok = true;
    }

    /// Record that the layout was saved to `path`.
    pub fn save_profile(&mut self, path: &str)
        ensures
            final(self).config == old(self).config,
            final(self).profile_path@ == path@,
            final(self).status_message@ == "Saved profile to "@ + path@,
            final(self).status_is_ok,
            final(self).active_layer == old(self).active_layer,
    {
        self.profile_path = owned(path);
        let mut m = String::new();
        push_str(&mut m, "Saved profile to ");
        push_str(&mut m, path);
        self.status_message = m;
        self.status_is_ok = true;
    }
}

/// Reading a selection back after binding it gives what was bound: the
/// knob gesture holds the action, or the button names it. (The hold+twist
/// targets are not edited by this window, so there is nothing to read.)
pub proof fn lemma_set_then_get(old: LayerConfig, new: LayerConfig, sel: Selection, name: Seq<char>)
    requires
        layer_with(old, new, sel, name),
        !(sel matches Selection::Knob { target: KnobTarget::PressCcw, .. }),
        !(sel matches Selection::Knob { target: KnobTarget::PressCw, .. }),
    ensures
        match sel {
            Selection::Knob { index, target } => index < new.knobs@.len()
                && is_one(knob_slot(new.knobs@[index as int], target), name),
            Selection::Button { row, col } => row < new.buttons@.len() && col < new.buttons@[row as int]@.len()
                && new.buttons@[row as int]@[col as int]@ == name,
        },
{
}

/// Binding a selection leaves every other binding on the layer as it was.
pub proof fn lemma_set_touches_only_the_selection(old: LayerConfig, new: LayerConfig, sel: Selection, name: Seq<char>, k: int)
    requires
        layer_with(old, new, sel, name),
        0 <= k < old.knobs@.len(),
        !(sel matches Selection::Knob { index, .. } && index == k),
    ensures
        new.knobs@[k] == old.knobs@[k],
{
}

} // verus!

//! Ready-made knob setups, applied to the active layer in one step.

use vstd::prelude::*;
use crate::binding::Binding;
use crate::config::{DeviceConfig, KnobConfig, LayerConfig};
use crate::gui::state::{GuiState, is_one, other_layers_same, unbound_knob};
use crate::text::{decimal, push_decimal, push_str};

verus! {

#[derive(Debug, Clone, Copy)]
pub struct Preset {
    pub id: &'static str,
    pub name: &'static str,
    pub description: &'static str,
    pub category: &'static str,
    pub ccw: &'static str,
    pub press: &'static str,
    pub cw: &'static str,
    pub pccw: Option<&'static str>,
    pub pcw: Option<&'static str>,
    pub button: &'static str,
    pub led_mode: u8,
    pub led_color: &'static str,
}

/// What a preset binds: id, twist left, press, twist right, button,
/// LED mode and colour.
pub open spec fn preset_row(p: Preset) -> (Seq<char>, Seq<char>, Seq<char>, Seq<char>, Seq<char>, u8, Seq<char>) {
    (p.id@, p.ccw@, p.press@, p.cw@, p.button@, p.led_mode, p.led_color@)
}

pub open spec fn preset_rows() -> Seq<(Seq<char>, Seq<char>, Seq<char>, Seq<char>, Seq<char>, u8, Seq<char>)> {
    seq![
        ("media_master"@, "volumedown"@, "mute"@, "volumeup"@, "play"@, 1u8, "white"@),
        ("video_scrubbing"@, "left"@, "space"@, "right"@, "cmd+b"@, 1u8, "red"@),
        ("digital_art"@, "leftbracket"@, "cmd+z"@, "rightbracket"@, "b"@, 1u8, "cyan"@),
        ("spaces_window"@, "ctrl+left"@, "ctrl+up"@, "ctrl+right"@, "cmd+h"@, 1u8, "magenta"@),
        ("developer_git"@, "cmd+leftbracket"@, "enter"@, "cmd+rightbracket"@, "ctrl+c"@, 1u8, "green"@),
        ("browser_reading"@, "wheelup"@, "mclick"@, "wheeldown"@, "cmd+w"@, 1u8, "yellow"@),
    ]
}

/// The built-in presets.
pub fn all_presets() -> (r: Vec<Preset>)
    ensures
        r@.map_values(|p: Preset| preset_row(p)) == preset_rows(),
{
    let r = vec![
        Preset {
            id: "media_master",
            name: "Media Master",
            description: "Smooth volume control, mute on press, play/pause on button.",
            category: "Entertainment",
            ccw: "volumedown",
            press: "mute",
            cw: "volumeup",
            pccw: Some("prev"),
            pcw: Some("next"),
            button: "play",
            led_mode: 1,
            led_color: "white",
        },
        Preset {
            id: "video_scrubbing",
            name: "Video Scrubbing (FCP / Premiere)",
            description: "Frame-by-frame jog dial, play/pause toggle, blade cut tool.",
            category: "Video Editing",
            ccw: "left",
            press: "space",
            cw: "right",
            pccw: Some("shift+left"),
            pcw: Some("shift+right"),
            button: "cmd+b",
            led_mode: 1,
            led_color: "red",
        },
        Preset {
            id: "digital_art",
            name: "Digital Art (Photoshop / Procreate)",
            description: "Brush size resize, undo on press, quick brush tool select.",
            category: "Creative",
            ccw: "leftbracket",
            press: "cmd+z",
            cw: "rightbracket",
            pccw: Some("cmd+minus"),
            pcw: Some("cmd+equal"),
            button: "b",
            led_mode: 1,
            led_color: "cyan",
        },
        Preset {
            id: "spaces_window",
            name: "Spaces & Window Tiling",
            description: "Switch virtual desktops, Mission Control on press, hide active window.",
            category: "Productivity",
            ccw: "ctrl+left",
            press: "ctrl+up",
            cw: "ctrl+right",
            pccw: None,
            pcw: None,
            button: "cmd+h",
            led_mode: 1,
            led_color: "magenta",
        },
        Preset {
            id: "developer_git",
            name: "Developer & Terminal",
            description: "Code navigation back/forward, enter on press, interrupt/kill on button.",
            category: "Development",
            ccw: "cmd+leftbracket",
            press: "enter",
            cw: "cmd+rightbracket",
            pccw: None,
            pcw: None,
            button: "ctrl+c",
            led_mode: 1,
            led_color: "green",
        },
        Preset {
            id: "browser_reading",
            name: "Web & Reading",
            description: "Smooth page scroll, middle-click autoscroll, close tab on button.",
            category: "Browsing",
            ccw: "wheelup",
            press: "mclick",
            cw: "wheeldown",
            pccw: None,
            pcw: None,
            button: "cmd+w",
            led_mode: 1,
            led_color: "yellow",
        },
    ];
    assert(r@.map_values(|p: Preset| preset_row(p)) =~= preset_rows());
    r
}

/// The LED spec a preset writes to its layer.
pub open spec fn preset_led(p: Preset) -> Seq<char> {
    "mode"@ + decimal(p.led_mode as nat) + " "@ + p.led_color@
}

/// The layer after a preset: the first knob's twists and press set (a knob
/// added if there was none), the first button set (a row or button added
/// if missing), the LED spec written; everything else untouched.
pub open spec fn layer_with_preset(old: LayerConfig, new: LayerConfig, p: Preset) -> bool {
    let k0 = if old.knobs@.len() == 0 { unbound_knob() } else { old.knobs@[0] };
    &&& new.knobs@.len() == if old.knobs@.len() == 0 { 1 } else { old.knobs@.len() }
    &&& is_one(new.knobs@[0].ccw, p.ccw@) && is_one(new.knobs@[0].press, p.press@) && is_one(new.knobs@[0].cw, p.cw@)
    &&& new.knobs@[0].hold_twist_l == k0.hold_twist_l && new.knobs@[0].hold_twist_r == k0.hold_twist_r
    &&& forall|k: int| 1 <= k < new.knobs@.len() ==> #[trigger] new.knobs@[k] == old.knobs@[k]
    &&& new.buttons@.len() == if old.buttons@.len() == 0 { 1 } else { old.buttons@.len() }
    &&& forall|r: int| 1 <= r < new.buttons@.len() ==> #[trigger] new.buttons@[r] == old.buttons@[r]
    &&& new.buttons@[0]@.len() == if old.buttons@.len() == 0 || old.buttons@[0]@.len() == 0 { 1 } else { old.buttons@[0]@.len() }
    &&& new.buttons@[0]@[0]@ == p.button@
    &&& forall|c: int| 1 <= c < new.buttons@[0]@.len() ==> #[trigger] new.buttons@[0]@[c] == old.buttons@[0]@[c]
    &&& (new.led matches Some(s) && s@ == preset_led(p))
}

/// Apply a preset to the active layer; a missing layer is a no-op.
pub fn apply_preset(preset: &Preset, state: &mut GuiState)
    ensures
        old(state).active_layer >= old(state).config.layers@.len() ==> *final(state) == *old(state),
        old(state).active_layer < old(state).config.layers@.len() ==> {
            &&& other_layers_same(old(state).config.layers@, final(state).config.layers@, old(state).active_layer as int)
            &&& layer_with_preset(old(state).config.layers@[old(state).active_layer as int],
                final(state).config.layers@[old(state).active_layer as int], *preset)
            &&& final(state).led_mode == preset.led_mode
            &&& final(state).led_color@ == preset.led_color@
            &&& final(state).status_message@ == "Applied '"@ + preset.name@ + "' preset to Layer "@
                + decimal(old(state).active_layer as nat)
            &&& final(state).status_is_ok
            &&& final(state).active_layer == old(state).active_layer
            &&& *final(state) == (GuiState {
                config: final(state).config,
                led_mode: final(state).led_mode,
                led_color: final(state).led_color,
                status_message: final(state).status_message,
                status_is_ok: final(state).status_is_ok,
                ..*old(state)
            })
            &&& final(state).config == (DeviceConfig { layers: final(state).config.layers, ..old(state).config })
        },
{
    if state.active_layer >= state.config.layers.len() {
        return;
    }
    let a = state.active_layer;
    let ghost start = state.config.layers@;
    let mut layer = state.config.layers.remove(a);
    let ghost old_layer = layer;
    if layer.knobs.len() == 0 {
        layer.knobs.push(KnobConfig::unbound());
    }
    let ghost grown = layer.knobs@;
    let mut knob = layer.knobs.remove(0);
    knob.ccw = Some(Binding::One(String::from_str(preset.ccw)));
    knob.press = Some(Binding::One(String::from_str(preset.press)));
    knob.cw = Some(Binding::One(String::from_str(preset.cw)));
    layer.knobs.insert(0, knob);
    assert forall|k: int| 1 <= k < layer.knobs@.len() implies #[trigger] layer.knobs@[k] == old_layer.knobs@[k] by {
        assert(layer.knobs@[k] == grown[k]);
    }
    if layer.buttons.len() == 0 {
        layer.buttons.push(vec![String::from_str(preset.button)]);
    } else {
        let ghost old_rows = layer.buttons@;
        let mut row = layer.buttons.remove(0);
        let ghost old_row = row@;
        if row.len() == 0 {
            row.push(String::from_str(preset.button));
        } else {
            let _ = row.remove(0);
            row.insert(0, String::from_str(preset.button));
            assert forall|c: int| 1 <= c < row@.len() implies #[trigger] row@[c] == old_row[c] by {}
        }
        layer.buttons.insert(0, row);
        assert forall|r: int| 1 <= r < layer.buttons@.len() implies #[trigger] layer.buttons@[r] == old_rows[r] by {}
    }
    let mut led = String::new();
    push_str(&mut led, "mode");
    push_decimal(&mut led, preset.led_mode as u128);
    push_str(&mut led, " ");
    push_str(&mut led, preset.led_color);
    assert(led@ =~= preset_led(*preset));
    layer.led = Some(led);
    state.config.layers.insert(a, layer);
    assert forall|l: int| 0 <= l < start.len() && l != a implies #[trigger] state.config.layers@[l] == start[l] by {}
    state.led_mode = preset.led_mode;
    state.led_color = String::from_str(preset.led_color);
    let mut m = String::new();
    push_str(&mut m, "Applied '");
    push_str(&mut m, preset.name);
    push_str(&mut m, "' preset to Layer ");
    push_decimal(&mut m, a as u128);
    state.status_message = m;
    state.status_is_ok = true;
}

} // verus!

//! The settings window's model: the selection, the layout under edit, the
//! presets and the sequence steps. Drawing it is the window's business.

pub mod state;
pub mod presets;
pub mod seq_editor;
pub mod recorder;
pub mod clihid;
pub mod canvas;

use vstd::prelude::*;
use crate::gui::recorder::{first_chord, first_chord_of, Key, Modifiers};
use crate::gui::state::{recorded_as, GuiState, KnobTarget, Selection};

verus! {

/// The settings window: its state, drawn each frame.
pub struct AntiknobApp {
    pub state: GuiState,
}

impl AntiknobApp {
    /// A window over a fresh state; the first device scan follows.
    pub fn new() -> (r: Self)
        ensures
            r.state.device.is_none(),
            r.state.active_layer == 0,
            r.state.selected == (Selection::Knob { index: 0, target: KnobTarget::Press }),
            r.state.config.layers@.len() == 3,
            r.state.status_is_ok,
    {
        AntiknobApp { state: GuiState::new() }
    }

    /// The keys pressed in one frame, in order. While a shortcut is being
    /// recorded, the first of them that names a chord is recorded; otherwise
    /// nothing changes.
    pub fn take_key_presses(&mut self, presses: &Vec<(Modifiers, Key)>)
        ensures
            match first_chord_of(presses@) {
                Some(c) if old(self).state.is_recording => recorded_as(old(self).state, final(self).state, c),
                _ => final(self).state == old(self).state,
            },
    {
        if self.state.is_recording {
            match first_chord(presses) {
                Some(c) => self.state.record_key(c.as_str()),
                None => {},
            }
        }
    }
}

} // verus!

use antiknob::binding::Binding;
use antiknob::gui::recorder::{first_chord, format_key, format_shortcut, Key, Modifiers};
use antiknob::gui::AntiknobApp;

fn mods(ctrl: bool, alt: bool, shift: bool, mac_cmd: bool, command: bool) -> Modifiers {
    Modifiers { alt, ctrl, shift, mac_cmd, command }
}

#[test]
fn keys_take_their_vocabulary_names() {
    assert_eq!(format_key(Key::A), Some("a"));
    assert_eq!(format_key(Key::Num7), Some("7"));
    assert_eq!(format_key(Key::Escape), Some("esc"));
    assert_eq!(format_key(Key::Equals), Some("equal"));
    assert_eq!(format_key(Key::Backtick), Some("grave"));
    assert_eq!(format_key(Key::ArrowLeft), Some("left"));
    assert_eq!(format_key(Key::F12), Some("f12"));
    assert_eq!(format_key(Key::Unlisted), None);
}

#[test]
fn a_chord_lists_modifiers_in_a_fixed_order() {
    let all = mods(true, true, true, true, false);
    assert_eq!(format_shortcut(&all, Key::K).as_deref(), Some("ctrl+alt+shift+cmd+k"));
    let shift_cmd = mods(false, false, true, false, true);
    assert_eq!(format_shortcut(&shift_cmd, Key::Space).as_deref(), Some("shift+cmd+space"));
    let both_cmd = mods(false, false, false, true, true);
    assert_eq!(format_shortcut(&both_cmd, Key::C).as_deref(), Some("cmd+c"));
}

#[test]
fn a_bare_key_is_its_own_chord() {
    let none = mods(false, false, false, false, false);
    assert_eq!(format_shortcut(&none, Key::Enter).as_deref(), Some("enter"));
}

#[test]
fn an_unnamed_key_spells_no_chord() {
    let ctrl = mods(true, false, false, false, false);
    assert_eq!(format_shortcut(&ctrl, Key::Unlisted), None);
}

#[test]
fn the_first_nameable_press_is_the_chord() {
    let cmd = Modifiers { alt: false, ctrl: false, shift: false, mac_cmd: true, command: false };
    let presses = vec![(cmd, Key::Unlisted), (cmd, Key::Z), (cmd, Key::X)];
    assert_eq!(first_chord(&presses).as_deref(), Some("cmd+z"));
    assert_eq!(first_chord(&vec![(cmd, Key::Unlisted)]), None);
    assert_eq!(first_chord(&vec![]), None);
}

#[test]
fn a_recording_window_binds_the_chord_it_sees() {
    let ctrl = Modifiers { alt: false, ctrl: true, shift: false, mac_cmd: false, command: false };
    let mut app = AntiknobApp::new();
    let presses = vec![(ctrl, Key::Unlisted), (ctrl, Key::C)];

    let before = app.state.get_binding(app.state.selected);
    app.take_key_presses(&presses);
    assert_eq!(app.state.get_binding(app.state.selected), before);
    assert!(app.state.recorded_shortcut.is_none());

    app.state.is_recording = true;
    app.take_key_presses(&vec![(ctrl, Key::Unlisted)]);
    assert!(app.state.is_recording);

    app.take_key_presses(&presses);
    assert!(!app.state.is_recording);
    assert_eq!(app.state.recorded_shortcut.as_deref(), Some("ctrl+c"));
    assert_eq!(app.state.get_binding(app.state.selected), Some(Binding::One("ctrl+c".to_string())));
    assert_eq!(app.state.status_message, "Assigned 'ctrl+c' to selected target");
}

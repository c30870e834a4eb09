use antiknob::binding::Binding;
use antiknob::device::DeviceMatch;
use antiknob::firmware::TransportType;
use antiknob::gui::presets::{all_presets, apply_preset};
use antiknob::gui::state::{GuiState, KnobTarget, Selection};
use antiknob::gui::AntiknobApp;

#[test]
fn a_fresh_window_starts_on_the_first_knobs_press() {
    let s = GuiState::new();
    assert!(s.device.is_none());
    assert_eq!(s.selected, Selection::Knob { index: 0, target: KnobTarget::Press });
    assert_eq!(s.config.layers.len(), 3);
    assert_eq!(s.status_message, "Scanning for Anticater VK01 USB device...");
    assert_eq!(s.get_binding(s.selected), Some(Binding::One("mute".to_string())));
    assert_eq!(
        s.get_binding(Selection::Button { row: 0, col: 0 }),
        Some(Binding::One("space".to_string()))
    );
    assert_eq!(AntiknobApp::new().state.active_layer, 0);
    assert_eq!(KnobTarget::PressCw.label(), "Press + Rotate CW");
}

#[test]
fn binding_a_selection_reads_back_what_was_bound() {
    let mut s = GuiState::new();
    s.selected = Selection::Knob { index: 2, target: KnobTarget::Cw };
    s.set_binding("cmd-z");
    assert_eq!(s.config.layers[0].knobs.len(), 3, "the knob list grows to the selection");
    assert_eq!(s.get_binding(s.selected), Some(Binding::One("cmd-z".to_string())));
    assert_eq!(s.get_binding(Selection::Knob { index: 1, target: KnobTarget::Cw }), None);
    assert_eq!(s.status_message, "Set binding to \"cmd-z\"");

    s.selected = Selection::Button { row: 1, col: 2 };
    s.set_binding("enter");
    assert_eq!(s.config.layers[0].buttons[1], vec!["none".to_string(), "none".to_string(), "enter".to_string()]);
    s.clear_current();
    assert_eq!(s.config.layers[0].buttons[1][2], "none");
    assert_eq!(s.status_message, "Cleared current key binding");

    s.selected = Selection::Knob { index: 0, target: KnobTarget::PressCcw };
    let before = s.config.clone();
    s.set_binding("a");
    assert_eq!(s.config, before, "hold+twist is not edited here");
}

#[test]
fn clearing_a_layer_unbinds_every_gesture_and_button() {
    let mut s = GuiState::new();
    s.active_layer = 1;
    s.clear_all_on_layer();
    assert_eq!(s.status_message, "Cleared all bindings on Layer 1");
    let l = &s.config.layers[1];
    assert!(l.knobs[0].ccw.is_none() && l.knobs[0].press.is_none() && l.knobs[0].cw.is_none());
    assert_eq!(l.buttons[0][0], "none");
    assert!(s.config.layers[0].knobs[0].ccw.is_some(), "other layers untouched");
    s.active_layer = 7;
    s.set_binding("a");
    assert_eq!(s.config.layers.len(), 3);
}

#[test]
fn recording_a_key_binds_it_and_ends_the_recording() {
    let mut s = GuiState::new();
    s.is_recording = true;
    s.record_key("cmd+shift+4");
    assert!(!s.is_recording);
    assert_eq!(s.recorded_shortcut.as_deref(), Some("cmd+shift+4"));
    assert_eq!(s.status_message, "Assigned 'cmd+shift+4' to selected target");
    assert_eq!(s.get_binding(s.selected), Some(Binding::One("cmd+shift+4".to_string())));
}

#[test]
fn switching_layers_hands_back_the_layer_led() {
    let mut s = GuiState::new();
    assert_eq!(s.switch_layer(1), Some("shock blue".to_string()));
    assert_eq!(s.active_layer, 1);
    assert_eq!(s.switch_layer(9), None);
}

#[test]
fn a_device_scan_reports_the_first_device() {
    let mut s = GuiState::new();
    let d = DeviceMatch {
        vendor_id: 0x514C,
        product_id: 0x8850,
        name: "VK01".to_string(),
        serial_number: None,
        path: "p".to_string(),
        usage_page: 0xFF00,
        usage: 1,
        interface_number: 0,
        transport: TransportType::Usb,
    };
    s.refresh_device(Ok(vec![d.clone()]));
    assert_eq!(s.status_message, "Connected: VK01 (VID: 0x514c, PID: 0x8850)");
    assert!(s.status_is_ok);
    assert_eq!(s.device, Some(d));
    s.refresh_device(Ok(vec![]));
    assert_eq!(s.status_message, "No device detected. Connect Anticater VK01 via USB.");
    assert!(!s.status_is_ok && s.device.is_none());
    s.refresh_device(Err("busy".to_string()));
    assert_eq!(s.status_message, "Error scanning USB devices: busy");
}

#[test]
fn profiles_are_recorded_with_their_path() {
    let mut s = GuiState::new();
    let cfg = s.config.clone();
    s.load_profile(cfg.clone(), "/tmp/p.yaml");
    assert_eq!(s.profile_path, "/tmp/p.yaml");
    assert_eq!(s.status_message, "Loaded profile from /tmp/p.yaml");
    s.save_profile("/tmp/q.yaml");
    assert_eq!(s.status_message, "Saved profile to /tmp/q.yaml");
    assert_eq!(s.config, cfg);
}

#[test]
fn a_preset_binds_the_first_knob_and_button_and_the_led() {
    let presets = all_presets();
    assert_eq!(presets.len(), 6);
    let video = presets.iter().find(|p| p.id == "video_scrubbing").unwrap();
    let mut s = GuiState::new();
    s.active_layer = 2;
    apply_preset(video, &mut s);
    let l = &s.config.layers[2];
    assert_eq!(l.knobs[0].ccw, Some(Binding::One("left".to_string())));
    assert_eq!(l.knobs[0].press, Some(Binding::One("space".to_string())));
    assert_eq!(l.knobs[0].cw, Some(Binding::One("right".to_string())));
    assert_eq!(l.buttons[0][0], "cmd+b");
    assert_eq!(l.led.as_deref(), Some("mode1 red"));
    assert_eq!(s.led_color, "red");
    assert_eq!(s.status_message, "Applied 'Video Scrubbing (FCP / Premiere)' preset to Layer 2");

    let mut empty = GuiState::new();
    empty.config.layers[0].knobs.clear();
    empty.config.layers[0].buttons.clear();
    apply_preset(&presets[0], &mut empty);
    assert_eq!(empty.config.layers[0].knobs.len(), 1);
    assert_eq!(empty.config.layers[0].buttons, vec![vec!["play".to_string()]]);
}

#[test]
fn the_status_line_reports_each_device_outcome() {
    let mut s = GuiState::new();
    s.active_layer = 1;
    s.led_mode = 3;
    s.led_color = "cyan".to_string();
    let config_before = s.config.clone();

    assert_eq!(s.led_spec(), "mode3 cyan");

    s.sync_layer_led("mode4", Ok(()));
    assert_eq!(s.status_message, "Layer 1 active, LED synced (mode4)");
    assert!(s.status_is_ok);
    s.sync_layer_led("mode4", Err("no device".to_string()));
    assert_eq!(s.status_message, "Layer 1 active, LED sync failed: no device");
    assert!(!s.status_is_ok);

    s.apply_led_to_device(Ok(()));
    assert_eq!(s.status_message, "LED lighting applied: mode3 cyan");
    assert!(s.status_is_ok);
    s.apply_led_to_device(Err("write failed".to_string()));
    assert_eq!(s.status_message, "Failed to set LED: write failed");
    assert!(!s.status_is_ok);

    s.restore_slot_bindings(Ok(9));
    assert_eq!(s.status_message, "Slot bindings restored (9 packets). Verify with: antiknob listen");
    s.restore_slot_bindings(Err("busy".to_string()));
    assert_eq!(s.status_message, "Slot binding flash failed: busy");

    s.export_presets_to_host("/tmp/host.json", Ok((6, 2)));
    assert_eq!(s.status_message, "Exported 6 preset layers to /tmp/host.json (2 button warning(s))");
    assert!(s.status_is_ok);
    s.export_presets_to_host("/tmp/host.json", Err("read-only".to_string()));
    assert_eq!(s.status_message, "Export failed: read-only");
    assert!(!s.status_is_ok);

    s.save_to_device(Ok(5));
    assert_eq!(s.status_message, "Successfully flashed 5 actions to Layer 1 (No sudo)!");
    assert!(s.status_is_ok);
    s.save_to_device(Err("Layer not found".to_string()));
    assert_eq!(s.status_message, "Flashing failed: Layer not found");

    assert_eq!(s.config, config_before);
    assert_eq!(s.active_layer, 1);
}

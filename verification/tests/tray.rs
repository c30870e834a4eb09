use antiknob::daemon::tray::{action_for, layer_label, menu_entries, tooltip, MenuEntry, TrayAction};

#[test]
fn the_tooltip_says_when_gestures_are_off() {
    assert_eq!(tooltip("2", true), "Antiknob — layer 2");
    assert!(tooltip("2", false).contains("off"));
}

#[test]
fn layer_lines_are_numbered_from_one_and_mark_the_active_layer() {
    assert_eq!(layer_label(0, "Media", true), "1 Media — active");
    assert_eq!(layer_label(1, "Scroll", false), "2 Scroll");
}

#[test]
fn the_menu_offers_the_way_out_only_while_the_tap_is_down() {
    let names = vec!["Media".to_string(), "Scroll".to_string()];
    let ok = menu_entries(&names, 1, true);
    assert_eq!(
        ok,
        vec![
            MenuEntry::Layer(0, "1 Media".to_string()),
            MenuEntry::Layer(1, "2 Scroll — active".to_string()),
            MenuEntry::Separator,
            MenuEntry::Settings,
            MenuEntry::Separator,
            MenuEntry::Reload,
            MenuEntry::Quit,
        ]
    );
    let deaf = menu_entries(&names, 0, false);
    assert_eq!(deaf.len(), 9);
    assert_eq!(deaf[5], MenuEntry::Fix);
    assert_eq!(action_for(&deaf[5]), Some(TrayAction::OpenAccessibility));
    assert_eq!(action_for(&deaf[1]), Some(TrayAction::SwitchLayer(1)));
    assert_eq!(action_for(&MenuEntry::Separator), None);
    assert_eq!(action_for(&MenuEntry::Quit), Some(TrayAction::Quit));
    assert_eq!(action_for(&MenuEntry::Reload), Some(TrayAction::ReloadNow));
    assert_eq!(action_for(&MenuEntry::Settings), Some(TrayAction::OpenSettings));
}

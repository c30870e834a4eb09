use antiknob::binding::Binding;
use antiknob::config::{default_device_config_path, default_model, default_orientation, DeviceConfig, KnobConfig, LayerConfig};
use antiknob::protocol::KnobEvent;

fn cfg(rows: usize, columns: usize, buttons: Vec<Vec<&str>>, knobs: usize) -> DeviceConfig {
    DeviceConfig {
        model: default_model(),
        orientation: default_orientation(),
        rows,
        columns,
        knobs,
        layers: vec![LayerConfig {
            buttons: buttons
                .into_iter()
                .map(|r| r.into_iter().map(str::to_string).collect())
                .collect(),
            knobs: (0..knobs)
                .map(|_| KnobConfig {
                    ccw: Some(Binding::One("volumedown".to_string())),
                    press: Some(Binding::One("mute".to_string())),
                    cw: Some(Binding::One("volumeup".to_string())),
                    hold_twist_l: None,
                    hold_twist_r: None,
                })
                .collect(),
            led: None,
        }],
    }
}

#[test]
fn the_default_layout_path_sits_beside_the_daemons_own_state() {
    let p = default_device_config_path("/Users/x");
    assert_eq!(p, "/Users/x/Library/Application Support/antiknob/config.yaml");
    assert_eq!(
        default_device_config_path("/Users/x/"),
        "/Users/x/Library/Application Support/antiknob/config.yaml"
    );
}

#[test]
fn the_button_count_comes_from_the_declared_grid() {
    assert_eq!(cfg(1, 3, vec![vec!["play", "prev", "next"]], 1).button_count(), 3);
    assert_eq!(cfg(3, 5, vec![], 1).button_count(), 15);
    assert_eq!(cfg(0, 0, vec![], 1).button_count(), 0);
}

#[test]
fn a_layer_with_more_buttons_than_the_grid_is_refused() {
    let bad = cfg(1, 2, vec![vec!["play", "prev", "next"]], 1);
    let err = bad.validate().expect_err("3 buttons in a 1x2 grid must be refused");
    let msg = err.message();
    assert!(msg.contains("lists 3"), "{msg}");
    assert!(msg.contains("key ID 3"), "{msg}");
    assert!(cfg(1, 3, vec![vec!["play", "prev", "next"]], 1).validate().is_ok());
}

#[test]
fn a_zero_button_layout_is_flagged_because_knob_slots_start_at_key_one() {
    assert!(cfg(0, 0, vec![], 1).knob_slots_start_at_the_first_button());
    assert!(!cfg(1, 3, vec![vec!["play", "prev", "next"]], 1).knob_slots_start_at_the_first_button());
    assert!(!cfg(0, 0, vec![], 0).knob_slots_start_at_the_first_button());
}

#[test]
fn a_zero_button_layout_that_binds_buttons_is_always_refused() {
    let err = cfg(0, 0, vec![vec!["play"]], 1)
        .validate()
        .expect_err("binding buttons a layout does not declare must be refused");
    let msg = err.message();
    assert!(msg.contains("lists 1 button(s)"), "{msg}");
    assert!(msg.contains("declares 0"), "{msg}");
}

#[test]
fn a_gesture_accepts_a_string_a_list_or_a_timed_map() {
    let ccw = Binding::One("volumedown".to_string());
    let press = Binding::Sequence(vec!["cmd-c".to_string(), "cmd-v".to_string()]);
    let cw = Binding::Timed { steps: vec!["cmd-a".to_string(), "cmd-c".to_string()], delay_ms: 120 };
    let knob = KnobConfig { ccw: Some(ccw.clone()), press: Some(press.clone()), cw: Some(cw.clone()), hold_twist_l: None, hold_twist_r: None };
    let c = DeviceConfig {
        model: default_model(),
        orientation: default_orientation(),
        rows: 1,
        columns: 1,
        knobs: 1,
        layers: vec![LayerConfig { buttons: vec![], knobs: vec![knob], led: None }],
    };
    c.validate().expect("valid");

    assert!(!ccw.is_sequence(), "a bare string is still a single action");
    let p = ccw.to_packet(4, 0).unwrap();
    assert_eq!(p[1], 0xFD);
    assert!(p[6] > 0, "a bare string must still declare its entries");

    assert!(press.is_sequence());
    assert_eq!(press.to_packet(5, 0).unwrap()[1], 0xFD);
    assert_eq!(press.delay_ms(), 0);

    assert_eq!(cw.delay_ms(), 120);
    let p = cw.to_packet(6, 0).unwrap();
    assert_eq!(p[1], 0xFD);
    assert_eq!(p[6], 4);
    assert_eq!(&p[7..10], &[0, 0, 0xF4], "no wait before the opening chord");
    assert_eq!(&p[13..16], &[0, 120, 0xF4], "120ms before the second");
}

#[test]
fn a_single_element_list_is_still_a_sequence() {
    let b = Binding::Sequence(vec!["cmd-c".to_string()]);
    assert!(b.is_sequence());
    assert_eq!(b.to_packet(4, 0).unwrap()[1], 0xFD);
    assert_eq!(b.to_packet(4, 0).unwrap(), Binding::One("cmd-c".to_string()).to_packet(4, 0).unwrap());
}

#[test]
fn a_binding_the_device_cannot_store_is_refused_when_it_loads() {
    let media = Binding::Sequence(vec!["volumeup".to_string(), "next".to_string()]);
    let err = media.validate().expect_err("a media chain must be refused");
    assert!(err.message().contains("one media action"), "{}", err.message());

    let long: Vec<String> = (0..20).map(|_| "a".to_string()).collect();
    let err = Binding::Sequence(long).validate().expect_err("too long");
    assert!(err.message().contains("entries"), "{}", err.message());

    assert!(Binding::Sequence(vec![]).validate().is_err());
    assert!(Binding::One("chartreuse".into()).validate().is_err());
}

#[test]
fn a_gesture_can_type_a_sequence_of_keystrokes() {
    let b = Binding::Sequence(["h", "e", "l", "l", "o"].iter().map(|s| s.to_string()).collect());
    b.validate().expect("valid");
    let p = b.to_packet(2, 0).unwrap();
    assert_eq!(p[4], 1, "keyboard kind");
    assert_eq!(p[6], 5, "five entries");
    assert_eq!(p[9], 0x0B, "h");
    assert_eq!(p[12], 0x08, "e");
    assert_eq!(p[15], 0x0F, "l");
}

#[test]
fn a_knob_lists_its_bindings_in_slot_order_and_slots_follow_the_buttons() {
    let c = cfg(1, 3, vec![vec!["play", "prev", "next"]], 1);
    let knob = &c.layers[0].knobs[0];
    let events: Vec<KnobEvent> = knob.bindings().iter().map(|(e, _)| *e).collect();
    assert_eq!(events, vec![KnobEvent::RotateCCW, KnobEvent::Press, KnobEvent::RotateCW]);
    assert_eq!(c.slots_per_layer(), 8);
    assert_eq!(antiknob::protocol::key_id_for_knob(3, 0, KnobEvent::RotateCCW), Some(4));
    assert_eq!(antiknob::protocol::key_id_for_knob(1, 0, KnobEvent::HoldTwistR), Some(6));
    assert_eq!(antiknob::protocol::key_id_for_knob(251, 0, KnobEvent::HoldTwistR), None);
    assert_eq!(antiknob::protocol::key_id_for_button(0), Some(1));
}

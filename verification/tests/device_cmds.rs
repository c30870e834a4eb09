use antiknob::api::device_cmds::{
    bind_sequence_packet, bind_slots_key_ids, confirm_sequence_bind, led_note, led_request_spec,
    led_write_needed, resolve_bind_layers, BindSlotsError,
};
use antiknob::commands::{bind_seq_packet, BindSeqError};
use antiknob::fd::{build_packet, parse_sequence};

fn names(v: &[&str]) -> Vec<String> {
    v.iter().map(|s| s.to_string()).collect()
}

#[test]
fn singular_layer_is_honored() {
    let (layers, layer): (Option<Vec<u8>>, Option<u8>) = (None, Some(1));
    assert_eq!(layer, Some(1));
    assert_eq!(resolve_bind_layers(layers, layer), vec![1]);
}

#[test]
fn plural_layers_wins_and_empty_means_all() {
    assert_eq!(resolve_bind_layers(Some(vec![0, 2]), Some(1)), vec![0, 2]);
    assert_eq!(resolve_bind_layers(None, None), vec![0, 1, 2]);
}

#[test]
fn slot_key_ids_follow_the_buttons() {
    assert_eq!(bind_slots_key_ids(0).unwrap(), vec![1, 2, 3, 4, 5]);
    assert_eq!(bind_slots_key_ids(9).unwrap(), vec![10, 11, 12, 13, 14]);
    assert_eq!(bind_slots_key_ids(40).unwrap(), vec![41, 42, 43, 44, 45]);
    let err = bind_slots_key_ids(41).unwrap_err();
    assert_eq!(err, BindSlotsError::TooManyButtons { buttons: 41 });
    assert_eq!(err.message(), "button count 41 is past the addressable slots (max 40)");
}

#[test]
fn a_daemon_sequence_waits_between_its_steps() {
    let actions = names(&["cmd-c", "cmd-v"]);
    let with_delay = bind_sequence_packet(3, 1, &actions, 120).unwrap();
    let mut steps = parse_sequence(&actions).unwrap();
    steps[1].delay_ms = 120;
    assert_eq!(with_delay, build_packet(3, 1, &steps).unwrap());
    let no_delay = bind_sequence_packet(3, 1, &actions, 0).unwrap();
    assert_eq!(no_delay, bind_seq_packet(3, 1, &actions).unwrap().0);
    assert_ne!(with_delay, no_delay);
}

#[test]
fn a_daemon_sequence_bind_refuses_what_the_cli_refuses() {
    let actions = names(&["cmd-c"]);
    assert_eq!(bind_sequence_packet(3, 3, &actions, 0), Err(BindSeqError::NoSuchLayer { layer: 3 }));
    assert!(matches!(bind_sequence_packet(3, 0, &names(&["nosuchkey"]), 0), Err(BindSeqError::Parse(_))));
}

#[test]
fn only_a_table_holding_the_record_confirms_it() {
    let sent = bind_sequence_packet(4, 0, &names(&["a", "b"]), 50).unwrap();
    let other = bind_sequence_packet(5, 0, &names(&["a"]), 0).unwrap();
    assert_eq!(confirm_sequence_bind(4, 0, &sent, &vec![other.clone(), sent.clone()]), Ok(()));
    assert_eq!(
        confirm_sequence_bind(4, 0, &sent, &vec![other]),
        Err("slot 4 layer 0 did not read back as written; the binding is UNCONFIRMED".to_string())
    );
    assert!(confirm_sequence_bind(4, 0, &sent, &vec![]).is_err());
}

#[test]
fn an_led_request_reads_before_it_writes() {
    assert_eq!(led_request_spec("ripple", Some("cyan")), "ripple cyan");
    assert_eq!(led_request_spec("ripple", Some("")), "ripple");
    assert_eq!(led_request_spec("off", None), "off");
    assert!(!led_write_needed(Some(3), Some(3)));
    assert!(led_write_needed(Some(3), Some(4)));
    assert!(led_write_needed(None, Some(3)));
    assert!(led_write_needed(Some(3), None));
    let base = "If the ring doesn't match, unplug/replug the knob -- its renderer can wedge after a mode change.";
    assert_eq!(led_note(2), base);
    assert_eq!(led_note(9), format!("{base} Layer 9 is past the firmware's 3 layers: it stores, render unmeasured."));
}

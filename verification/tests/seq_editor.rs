use antiknob::gui::seq_editor::{describe_step, move_step, SeqStep};

fn key_step(label: &str) -> SeqStep {
    SeqStep { key: Some(8), mods: vec![], label: label.to_string(), delay_ms: None }
}

#[test]
fn move_step_reorders_and_clamps() {
    let mut steps = vec![key_step("a"), key_step("b"), key_step("c")];
    move_step(&mut steps, 1, true);
    assert_eq!(steps[0].label, "b");
    move_step(&mut steps, 0, true);
    assert_eq!(steps[0].label, "b");
    move_step(&mut steps, 2, false);
    assert_eq!(steps[2].label, "c");
    move_step(&mut steps, 9, false);
    assert_eq!(steps.len(), 3);
}

#[test]
fn describe_covers_key_wait_and_combined_steps() {
    assert!(describe_step(&key_step("C")).contains('C'));
    let wait = SeqStep { key: None, mods: vec![], label: String::new(), delay_ms: Some(250) };
    assert_eq!(describe_step(&wait), "Wait 250ms");
    let both = SeqStep { delay_ms: Some(50), ..key_step("V") };
    assert!(describe_step(&both).contains("wait 50ms first"));
}

#[test]
fn a_step_reads_with_its_modifiers_key_and_wait() {
    let step = SeqStep {
        key: Some(9),
        mods: vec!["cmd".to_string(), "shift".to_string()],
        label: "V".to_string(),
        delay_ms: Some(50),
    };
    assert_eq!(describe_step(&step), "Key cmd+shift+V [9] (wait 50ms first)");
    assert_eq!(describe_step(&key_step("a")), "Key a [8]");
    let empty = SeqStep { key: None, mods: vec![], label: String::new(), delay_ms: None };
    assert_eq!(describe_step(&empty), "Empty step");
}

#[test]
fn moving_up_then_down_restores_the_order() {
    let mut steps = vec![1, 2, 3, 4];
    move_step(&mut steps, 2, true);
    assert_eq!(steps, vec![1, 3, 2, 4]);
    move_step(&mut steps, 1, false);
    assert_eq!(steps, vec![1, 2, 3, 4]);
    move_step(&mut steps, 3, false);
    assert_eq!(steps, vec![1, 2, 3, 4]);
}

use antiknob::api::device_cmds::BindSlotsError;
use antiknob::api::dispatch::{
    keymap_layers, plan_command, variant_refusal_message, Command, CommandError, CommandStep, EngineUse,
    TapState,
};
use antiknob::commands::BindSeqError;

fn engine(layers: usize, variants: &[&str]) -> Option<TapState> {
    Some(TapState { layers, active_layer: 1, variants: variants.iter().map(|s| s.to_string()).collect() })
}

fn refusal(cmd: Command, eng: Option<TapState>) -> String {
    plan_command(cmd, eng).unwrap_err().message()
}

#[test]
fn plain_requests_come_to_their_step() {
    assert_eq!(plan_command(Command::GetStatus, None), Ok(CommandStep::Status));
    assert_eq!(plan_command(Command::Ping, None), Ok(CommandStep::Pong));
    assert_eq!(plan_command(Command::ListCommands, None), Ok(CommandStep::DescribeCommands));
    assert_eq!(plan_command(Command::GetLed { layer: 2 }, None), Ok(CommandStep::ReadLed { layer: 2 }));
    assert_eq!(plan_command(Command::ShowKeys, None), Ok(CommandStep::ShowKeys));
    assert_eq!(
        plan_command(Command::SetConfig { config: "{}".to_string() }, None),
        Ok(CommandStep::WriteConfig { config: "{}".to_string() })
    );
}

#[test]
fn engine_commands_need_a_running_engine() {
    assert_eq!(refusal(Command::SetLayer { layer: 0 }, None), "Daemon tap engine not running; cannot switch layer");
    assert_eq!(
        plan_command(Command::GetVirtualLayer, None),
        Err(CommandError::NoEngine(EngineUse::ReadVirtualLayer))
    );
    assert_eq!(
        refusal(Command::SetVirtualVariant { variant: None }, None),
        "Daemon tap engine not running; cannot pin a variant"
    );
    assert_eq!(plan_command(Command::SetLayer { layer: 1 }, engine(2, &[])), Ok(CommandStep::SwitchLayer { layer: 1 }));
    assert_eq!(refusal(Command::SetLayer { layer: 2 }, engine(2, &[])), "Layer index 2 out of range (max is 1)");
    assert_eq!(refusal(Command::SetLayer { layer: 0 }, engine(0, &[])), "Layer index 0 out of range (max is 0)");
}

#[test]
fn a_pin_must_name_a_real_variant() {
    let ok = plan_command(Command::SetVirtualVariant { variant: Some("Browser".to_string()) }, engine(3, &["Browser", "Editor"]));
    assert_eq!(ok, Ok(CommandStep::PinVariant { variant: Some("Browser".to_string()) }));
    assert_eq!(
        refusal(Command::SetVirtualVariant { variant: Some("Nope".to_string()) }, engine(3, &["Browser", "Editor"])),
        "layer 1 has no variant named \"Nope\" (has: Browser, Editor)"
    );
    assert_eq!(
        refusal(Command::SetVirtualVariant { variant: Some("a\"b\\".to_string()) }, engine(3, &[])),
        format!("layer 1 has no variant named {:?} (has: none)", "a\"b\\")
    );
    assert_eq!(
        plan_command(Command::SetVirtualVariant { variant: None }, engine(3, &[])),
        Ok(CommandStep::PinVariant { variant: None })
    );
}

#[test]
fn led_requests_are_bounded() {
    let step = plan_command(Command::SetLed { layer: 15, mode: "ripple".to_string(), color: Some("cyan".to_string()) }, None);
    assert_eq!(step, Ok(CommandStep::SetLed { layer: 15, spec: "ripple cyan".to_string() }));
    assert_eq!(
        refusal(Command::SetLed { layer: 16, mode: "red".to_string(), color: None }, None),
        "Layer index 16 exceeds maximum of 15"
    );
    assert_eq!(
        refusal(Command::SetLed { layer: 0, mode: "x".repeat(65), color: None }, None),
        "LED mode string exceeds 64 characters"
    );
    // The limit counts bytes: 22 three-byte characters are 66 bytes.
    assert_eq!(
        plan_command(Command::SetLed { layer: 0, mode: "\u{2603}".repeat(22), color: None }, None),
        Err(CommandError::LedModeTooLong)
    );
    assert!(plan_command(Command::SetLed { layer: 0, mode: "x".repeat(64), color: Some(String::new()) }, None).is_ok());
}

#[test]
fn keymaps_are_bounded_and_their_layer_checked() {
    assert_eq!(
        refusal(Command::UploadKeymap { yaml: "a".repeat(65_537), layer: None }, None),
        "Keymap YAML exceeds 64KB size limit"
    );
    let yaml = "layers: []".to_string();
    assert_eq!(
        plan_command(Command::UploadKeymap { yaml: yaml.clone(), layer: Some(1) }, None),
        Ok(CommandStep::UploadKeymap { yaml, layer: Some(1) })
    );
    assert_eq!(keymap_layers(3, None), Ok(vec![0, 1, 2]));
    assert_eq!(keymap_layers(3, Some(2)), Ok(vec![2]));
    assert_eq!(keymap_layers(3, Some(3)).unwrap_err().message(), "Layer 3 out of range");
}

#[test]
fn raw_sends_are_bounded_and_hex() {
    let bytes = |v: &[&str]| v.iter().map(|s| s.to_string()).collect::<Vec<_>>();
    assert_eq!(
        plan_command(Command::SendRaw { bytes: bytes(&["0x03", "FE", "0Xa1"]) }, None),
        Ok(CommandStep::SendRaw { payload: vec![3, 0xFE, 0xA1] })
    );
    assert_eq!(refusal(Command::SendRaw { bytes: bytes(&["01", "zz"]) }, None), "Bad hex byte 'zz'");
    assert_eq!(
        refusal(Command::SendRaw { bytes: vec!["00".to_string(); 65] }, None),
        "Raw payload exceeds 64-byte limit (received 65 elements)"
    );
}

#[test]
fn slot_binds_and_reads_take_their_defaults() {
    assert_eq!(
        plan_command(Command::BindSlots { layers: None, layer: Some(1), buttons: Some(0) }, None),
        Ok(CommandStep::BindSlots { layers: vec![1], buttons: Some(0), key_ids: Some(vec![1, 2, 3, 4, 5]) })
    );
    assert_eq!(
        plan_command(Command::BindSlots { layers: None, layer: None, buttons: None }, None),
        Ok(CommandStep::BindSlots { layers: vec![0, 1, 2], buttons: None, key_ids: None })
    );
    assert_eq!(
        plan_command(Command::BindSlots { layers: Some(vec![2]), layer: Some(0), buttons: Some(41) }, None),
        Err(CommandError::BindSlots(BindSlotsError::TooManyButtons { buttons: 41 }))
    );
    assert_eq!(
        plan_command(Command::ReadSlots { group: None, counters: None, full: false }, None),
        Ok(CommandStep::ReadSlots { group: 0x0F, counters: vec![1, 2, 3] })
    );
    assert_eq!(
        plan_command(Command::ReadSlots { group: Some(2), counters: Some(vec![7]), full: true }, None),
        Ok(CommandStep::ReadFullTable)
    );
}

#[test]
fn a_sequence_bind_is_built_or_refused() {
    let acts = vec!["cmd-c".to_string()];
    match plan_command(Command::BindSequence { key: 3, layer: 0, actions: acts.clone(), delay_ms: 0 }, None) {
        Ok(CommandStep::BindSequence { key, layer, packet }) => {
            assert_eq!((key, layer), (3, 0));
            assert_eq!(packet.len(), 64);
        }
        other => panic!("{other:?}"),
    }
    assert_eq!(
        plan_command(Command::BindSequence { key: 3, layer: 3, actions: acts, delay_ms: 0 }, None),
        Err(CommandError::BindSequence(BindSeqError::NoSuchLayer { layer: 3 }))
    );
}

#[test]
fn a_refused_pin_quotes_the_name_as_debug_does() {
    let odd = "tab\t bell\u{7} accent e\u{301}";
    assert_eq!(
        refusal(Command::SetVirtualVariant { variant: Some(odd.to_string()) }, engine(2, &["A"])),
        format!("layer 1 has no variant named {:?} (has: A)", odd)
    );
    assert_eq!(variant_refusal_message(4, "\"x\"", &vec![]), "layer 4 has no variant named \"x\" (has: none)");
    assert_eq!(
        variant_refusal_message(0, "\"x\"", &vec!["A".to_string(), "B".to_string()]),
        "layer 0 has no variant named \"x\" (has: A, B)"
    );
}

use antiknob::protocol::{knob_events, Action, KnobEvent, ParseError};

#[test]
fn chords_modifiers_and_media_parse_to_their_hid_codes() {
    assert_eq!(Action::parse("a"), Ok(Action::Key { modifiers: 0, code: 0x04 }));
    assert_eq!(Action::parse("cmd-c"), Ok(Action::Key { modifiers: 0x08, code: 0x06 }));
    assert_eq!(Action::parse("ctrl+alt+f16"), Ok(Action::Key { modifiers: 0x05, code: 0x6B }));
    assert_eq!(Action::parse("cmd-shift-4"), Ok(Action::Key { modifiers: 0x0A, code: 0x21 }));
    assert_eq!(Action::parse("volumeup"), Ok(Action::Media(0xE9)));
    assert_eq!(Action::parse("stop"), Ok(Action::Media(0xB7)));
    assert!(matches!(Action::parse("wheelup"), Ok(Action::MouseWheel { .. })));
    assert!(matches!(Action::parse("click"), Ok(Action::MouseClick { .. })));
}

#[test]
fn a_refused_name_says_why() {
    assert_eq!(Action::parse(""), Err(ParseError::Empty));
    let e = Action::parse("chartreuse").unwrap_err();
    assert_eq!(
        e.message(),
        "unknown action name 'chartreuse'; `antiknob show-keys` lists the names the device understands"
    );
    let e = Action::parse("a-b").unwrap_err();
    assert_eq!(e.message(), "'a' is not a modifier, so it cannot come before the key of a chord");
    assert!(Action::parse("cmd-volumeup").unwrap_err().message().contains("only keystrokes"));
}

#[test]
fn the_five_gestures_come_in_slot_order() {
    assert_eq!(
        knob_events(),
        vec![KnobEvent::RotateCCW, KnobEvent::Press, KnobEvent::RotateCW, KnobEvent::HoldTwistL, KnobEvent::HoldTwistR]
    );
    assert_eq!(KnobEvent::HoldTwistR.ordinal(), 4);
    assert_eq!(KnobEvent::RotateCCW.as_str(), "ccw");
}

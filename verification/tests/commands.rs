use antiknob::binding::Binding;
use antiknob::commands::{
    bind_seq_packet, confirm_bind_seq, find_slot, layout_slots_per_layer, plan_upload, readback_width, BindSeqError,
    UploadError,
};
use antiknob::config::{default_model, default_orientation, DeviceConfig, KnobConfig, LayerConfig};
use antiknob::fd::build_packet;

fn layout(rows: usize, columns: usize, buttons: Vec<&str>, knobs: Vec<KnobConfig>, layers: usize) -> DeviceConfig {
    DeviceConfig {
        model: default_model(),
        orientation: default_orientation(),
        rows,
        columns,
        knobs: knobs.len(),
        layers: (0..layers)
            .map(|_| LayerConfig {
                buttons: if buttons.is_empty() { vec![] } else { vec![buttons.iter().map(|s| s.to_string()).collect()] },
                knobs: knobs.clone(),
                led: None,
            })
            .collect(),
    }
}

fn knob() -> KnobConfig {
    KnobConfig {
        ccw: Some(Binding::One("volumedown".to_string())),
        press: Some(Binding::One("mute".to_string())),
        cw: Some(Binding::Sequence(vec!["cmd-c".to_string(), "cmd-v".to_string()])),
        hold_twist_l: None,
        hold_twist_r: None,
    }
}

#[test]
fn an_upload_writes_buttons_then_knob_gestures_on_the_slots_after_them() {
    let cfg = layout(1, 1, vec!["space"], vec![knob()], 2);
    let plan = plan_upload(&cfg, None, false).expect("valid");
    assert_eq!(plan.packets.len(), 8, "four slots on each of two layers");
    let ids: Vec<(u8, u8)> = plan.packets.iter().map(|p| (p[2], p[3])).collect();
    assert_eq!(ids, vec![(1, 1), (2, 1), (3, 1), (4, 1), (1, 2), (2, 2), (3, 2), (4, 2)]);
    assert!(plan.packets.iter().all(|p| p[1] == 0xFD));
    assert_eq!(plan.packets[1], Binding::One("volumedown".to_string()).to_packet(2, 0).unwrap());
    assert!(plan.wipes.is_empty(), "0xFD records are not slot-table records");
    assert_eq!(plan.slots_per_layer, 6);

    let one = plan_upload(&cfg, Some(1), false).expect("layer 1 exists");
    assert_eq!(one.packets, plan.packets[4..].to_vec());
}

#[test]
fn an_upload_is_refused_before_anything_is_written() {
    let cfg = layout(1, 1, vec!["space"], vec![knob()], 1);
    match plan_upload(&cfg, Some(3), false) {
        Err(e @ UploadError::LayerOutOfRange { .. }) => {
            assert_eq!(e.message("x.yaml"), "Layer 3 out of range (config has 1 layer(s))")
        },
        _ => panic!("layer 3 does not exist"),
    }
    let knob_only = layout(0, 0, vec![], vec![knob()], 1);
    match plan_upload(&knob_only, None, false) {
        Err(e @ UploadError::NoButtons { .. }) => {
            assert!(e.message("x.yaml").starts_with("x.yaml declares no buttons (rows 0 x columns 0)"))
        },
        _ => panic!("a button-less layout needs --knob-only"),
    }
    let plan = plan_upload(&knob_only, None, true).expect("confirmed knob-only");
    assert_eq!(plan.packets[0][2], 1, "knob slots start at key 1 on a device with no keys");
    let bad = layout(1, 1, vec!["chartreuse"], vec![], 1);
    assert!(matches!(plan_upload(&bad, None, false), Err(UploadError::Config(_))));
    let mouse = layout(1, 1, vec!["click"], vec![], 1);
    match plan_upload(&mouse, None, false) {
        Err(UploadError::Binding(e)) => assert!(e.message().contains("0xFE")),
        _ => panic!("a mouse button has no 0xFD encoding"),
    }
    let wide = layout(300, 1, vec!["a"], vec![], 1);
    assert!(matches!(plan_upload(&wide, None, false), Err(UploadError::TooWide)));
}

#[test]
fn the_layer_width_must_fit_a_byte() {
    assert_eq!(layout_slots_per_layer(&layout(1, 3, vec![], vec![knob()], 1)), Ok(8));
    assert_eq!(
        layout_slots_per_layer(&layout(50, 5, vec![], vec![knob(), knob()], 1)).unwrap_err(),
        "layout declares more slots per layer than the protocol can address"
    );
}

#[test]
fn a_sequence_bind_is_built_on_an_existing_layer_only() {
    let actions = vec!["cmd-c".to_string(), "cmd-v".to_string()];
    let (packet, n) = bind_seq_packet(4, 0, &actions).expect("valid");
    assert_eq!(n, 2);
    assert_eq!(&packet[..7], &[0x03, 0xFD, 4, 1, 1, 0, 4]);
    match bind_seq_packet(4, 3, &actions) {
        Err(e @ BindSeqError::NoSuchLayer { .. }) => {
            assert_eq!(e.message(), "layer 3 does not exist; this firmware has layers 0..2")
        },
        _ => panic!("layer 3 does not exist"),
    }
    assert!(matches!(bind_seq_packet(4, 0, &vec!["nope".to_string()]), Err(BindSeqError::Parse(_))));
    assert!(matches!(bind_seq_packet(4, 0, &vec![]), Err(BindSeqError::Record(_))));
}

#[test]
fn a_sequence_bind_is_confirmed_only_by_its_own_slot() {
    let steps = antiknob::fd::parse_sequence(&vec!["a".to_string(), "b".to_string()]).unwrap();
    let sent = build_packet(5, 1, &steps).unwrap();
    let mut echo = sent.clone();
    echo[1] = 0xFA;
    let mut other = echo.clone();
    other[2] = 6;
    assert_eq!(find_slot(&vec![other.clone(), echo.clone()], 5, 1), Some(1));
    assert_eq!(confirm_bind_seq(&sent, &vec![other.clone(), echo.clone()], 5, 1), Ok(()));
    let err = confirm_bind_seq(&sent, &vec![other.clone()], 5, 1).unwrap_err();
    assert_eq!(err, BindSeqError::NoReadback { key: 5, layer: 1 });
    assert!(err.message().contains("UNCONFIRMED"));
    let mut changed = echo.clone();
    changed[9] ^= 1;
    assert_eq!(confirm_bind_seq(&sent, &vec![changed], 5, 1), Err(BindSeqError::Differs));
    assert_eq!(readback_width(None, 5), 5);
    assert_eq!(readback_width(Some(3), 5), 5);
    assert_eq!(readback_width(Some(9), 5), 9);
}

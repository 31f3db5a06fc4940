use pod_core::config::pod2_config;
use pod_core::mediator::{
    apply_rules, handle_message, outbound_message, receive_cc, split_14bit_rules, store_value,
    wire_value, InboundError, CC_CHANNEL,
};
use pod_core::midi::MidiMessage;
use pod_core::model::{Config, Control, RangeControl, SwitchControl};
use pod_core::store::{Origin, Store, StoreEvent};

fn pod2_store() -> Store {
    Store::new(pod2_config())
}

fn cc_of(m: Option<MidiMessage>) -> (u8, u8, u8) {
    match m {
        Some(MidiMessage::ControlChange { channel, control, value }) => (channel, control, value),
        other => panic!("expected a control change, got {:?}", other),
    }
}

/// Sends every pending store event through the outbound decision.
fn outbound_all(s: &mut Store) -> Vec<MidiMessage> {
    let events = s.take_events();
    events.iter().filter_map(|e| outbound_message(s, e)).collect()
}

#[test]
fn basic_cc_echo() {
    let mut s = pod2_store();
    s.set("drive", 30, Origin::Gui);
    let out = outbound_all(&mut s);
    assert_eq!(out.len(), 1);
    assert_eq!(cc_of(Some(out[0].clone())), (1, 13, 60));
    assert_eq!(out[0].to_bytes(), vec![0xb1, 13, 60]);

    s.set("drive", 0, Origin::Gui);
    s.take_events();
    let r = handle_message(&mut s, MidiMessage::ControlChange { channel: 1, control: 13, value: 60 });
    assert!(matches!(r, Ok(None)));
    assert_eq!(s.get("drive"), Some(30));
    assert!(outbound_all(&mut s).is_empty());
}

#[test]
fn switch_wiring() {
    let mut s = pod2_store();
    s.set("delay_enable", 1, Origin::Gui);
    let out = outbound_all(&mut s);
    assert_eq!(out.len(), 1);
    let (_, control, value) = cc_of(Some(out[0].clone()));
    assert_eq!((control, value), (28, 64));

    assert!(matches!(
        handle_message(&mut s, MidiMessage::ControlChange { channel: 1, control: 28, value: 127 }),
        Ok(None)
    ));
    assert_eq!(s.get("delay_enable"), Some(1));
    assert!(matches!(
        handle_message(&mut s, MidiMessage::ControlChange { channel: 1, control: 28, value: 63 }),
        Ok(None)
    ));
    assert_eq!(s.get("delay_enable"), Some(0));
}

#[test]
fn switch_round_trip_values() {
    let sw = Control::SwitchControl(SwitchControl { cc: 28 });
    assert_eq!(wire_value(&sw, 0), 0);
    assert_eq!(wire_value(&sw, 1), 64);
    assert_eq!(wire_value(&sw, 2), 127);
    assert_eq!(store_value(&sw, 0), 0);
    assert_eq!(store_value(&sw, 64), 1);
    for v in [0u16, 1] {
        let mut s = pod2_store();
        s.set("delay_enable", 1 - v, Origin::Internal);
        s.take_events();
        s.set("delay_enable", v, Origin::Gui);
        let (_, control, value) = cc_of(outbound_all(&mut s).pop());
        assert!(value == 0 || value == 64);
        assert!(receive_cc(&mut s, control, value));
        assert_eq!(s.get("delay_enable"), Some(v));
    }
}

#[test]
fn range_round_trip_truncates() {
    let treble = Control::RangeControl(RangeControl { cc: 16, from: 0, to: 63 });
    let ratio = Control::RangeControl(RangeControl { cc: 42, from: 0, to: 6 });
    let gate = Control::RangeControl(RangeControl { cc: 23, from: 0, to: 96 });
    assert_eq!(wire_value(&treble, 63), 126);
    assert_eq!(wire_value(&ratio, 6), 126);
    assert_eq!(wire_value(&gate, 96), 96);
    assert_eq!(store_value(&treble, 127), 63);
    assert_eq!(store_value(&treble, 61), 30);
    assert_eq!(store_value(&ratio, 41), 1);
    assert_eq!(wire_value(&treble, 100), 127);

    let mut s = pod2_store();
    for v in 0..=6u16 {
        s.set("compression_ratio", v, Origin::Gui);
        let msgs = outbound_all(&mut s);
        if let Some(m) = msgs.last() {
            let (_, control, value) = cc_of(Some(m.clone()));
            assert_eq!(control, 42);
            assert_eq!(value as u16, v * 21);
            receive_cc(&mut s, control, value);
            assert_eq!(s.get("compression_ratio"), Some(v));
            s.take_events();
        }
    }
    receive_cc(&mut s, 42, 50);
    assert_eq!(s.get("compression_ratio"), Some(2));
}

#[test]
fn midi_origin_is_not_echoed() {
    let mut s = pod2_store();
    assert!(receive_cc(&mut s, 14, 90));
    assert_eq!(s.get("bass"), Some(45));
    let events = s.take_events();
    assert_eq!(events.len(), 1);
    assert_eq!(events[0].origin, Origin::Midi);
    assert!(outbound_message(&s, &events[0]).is_none());
    let ev = StoreEvent { name: "bass".to_string(), origin: Origin::Midi };
    assert!(outbound_message(&s, &ev).is_none());
    let ev = StoreEvent { name: "bass".to_string(), origin: Origin::Internal };
    assert_eq!(cc_of(outbound_message(&s, &ev)), (CC_CHANNEL, 14, 90));
}

#[test]
fn unknown_cc_is_reported() {
    let mut s = pod2_store();
    let r = handle_message(&mut s, MidiMessage::ControlChange { channel: 1, control: 127, value: 1 });
    assert!(matches!(r, Err(InboundError::UnknownControl { control: 127 })));
    assert!(!receive_cc(&mut s, 127, 1));
    assert!(s.take_events().is_empty());
}

#[test]
fn inquiry_response() {
    let mut s = pod2_store();
    let r = handle_message(&mut s, MidiMessage::UniversalDeviceInquiry { channel: 0x7f });
    match r {
        Ok(Some(MidiMessage::UniversalDeviceInquiryResponse { channel, family, member, ver })) => {
            assert_eq!(channel, 0x7f);
            assert_eq!(family, 0x0000);
            assert_eq!(member, 0x0300);
            assert_eq!(ver, b"0223".to_vec());
        }
        other => panic!("unexpected {:?}", other),
    }
}

#[test]
fn patch_dump_length_check() {
    let mut s = pod2_store();
    let r = handle_message(&mut s, MidiMessage::ProgramEditBufferDump { ver: 0, data: vec![9u8; 70] });
    assert!(matches!(r, Err(InboundError::BadLength { expected: 71, got: 70 })));
    assert_eq!(s.program(), vec![0u8; 71]);
    assert!(s.take_events().is_empty());

    let r = handle_message(&mut s, MidiMessage::ProgramEditBufferDump { ver: 0, data: vec![9u8; 71] });
    assert!(matches!(r, Ok(None)));
    assert_eq!(s.program(), vec![9u8; 71]);
}

#[test]
fn dump_requests_answer_with_edit_buffer() {
    let mut s = pod2_store();
    let data: Vec<u8> = (0..71u8).collect();
    s.load_program(data.clone());
    match handle_message(&mut s, MidiMessage::ProgramEditBufferDumpRequest) {
        Ok(Some(MidiMessage::ProgramEditBufferDump { ver, data: d })) => {
            assert_eq!(ver, 0);
            assert_eq!(d, data);
        }
        other => panic!("unexpected {:?}", other),
    }
    match handle_message(&mut s, MidiMessage::ProgramPatchDumpRequest { patch: 5 }) {
        Ok(Some(MidiMessage::ProgramPatchDump { patch, ver, data: d })) => {
            assert_eq!((patch, ver), (5, 0));
            assert_eq!(d, data);
        }
        other => panic!("unexpected {:?}", other),
    }
    let r = handle_message(&mut s, MidiMessage::ProgramPatchDump { patch: 1, ver: 0, data: vec![] });
    assert!(matches!(r, Err(InboundError::Unhandled)));
}

fn wide_config() -> Config {
    let mut c = pod2_config();
    c.controls.push(("wide".to_string(), Control::RangeControl(RangeControl { cc: 100, from: 0, to: 127 })));
    c.controls.push(("wide_msb".to_string(), Control::RangeControl(RangeControl { cc: 101, from: 0, to: 127 })));
    c.controls.push(("wide_lsb".to_string(), Control::RangeControl(RangeControl { cc: 102, from: 0, to: 127 })));
    c
}

#[test]
fn split_14bit_from_gui() {
    let rules = split_14bit_rules("wide", "wide_msb", "wide_lsb");
    assert_eq!(rules.len(), 3);
    for v in [300u16, 0x3fff, 127, 128] {
        let mut s = Store::new(wide_config());
        s.set("wide", v, Origin::Gui);
        let first = s.take_events();
        assert_eq!(first.len(), 1);
        apply_rules(&mut s, &rules, &first[0]);
        let second = s.take_events();
        let tags: Vec<(&str, Origin)> = second.iter().map(|e| (e.name.as_str(), e.origin)).collect();
        assert_eq!(tags, vec![("wide_msb", Origin::Gui), ("wide_lsb", Origin::Gui)]);
        assert_eq!(s.get("wide_msb"), Some(v >> 7));
        assert_eq!(s.get("wide_lsb"), Some(v & 0x7f));
        let out: Vec<(u8, u8, u8)> = second.iter().map(|e| cc_of(outbound_message(&s, e))).collect();
        assert_eq!(out, vec![(1, 101, (v >> 7) as u8), (1, 102, (v & 0x7f) as u8)]);
        for e in &second {
            apply_rules(&mut s, &rules, e);
        }
        assert!(s.take_events().is_empty());
    }
}

#[test]
fn split_14bit_forces_unchanged_halves() {
    let rules = split_14bit_rules("wide", "wide_msb", "wide_lsb");
    let mut s = Store::new(wide_config());
    s.set("wide_msb", 2, Origin::Internal);
    s.set("wide_lsb", 44, Origin::Internal);
    s.take_events();
    s.set("wide", 300, Origin::Gui);
    let first = s.take_events();
    apply_rules(&mut s, &rules, &first[0]);
    assert_eq!(s.take_events().len(), 2);
}

#[test]
fn join_14bit_from_midi() {
    let rules = split_14bit_rules("wide", "wide_msb", "wide_lsb");
    let mut s = Store::new(wide_config());
    s.set("wide", 5, Origin::Internal);
    s.take_events();
    assert!(receive_cc(&mut s, 101, 3));
    let ev = s.take_events();
    assert_eq!(ev.len(), 1);
    apply_rules(&mut s, &rules, &ev[0]);
    assert_eq!(s.get("wide"), Some((3 << 7) | 5));
    let ev = s.take_events();
    assert_eq!(ev.len(), 1);
    assert_eq!(ev[0].name, "wide");
    assert_eq!(ev[0].origin, Origin::Midi);

    assert!(receive_cc(&mut s, 102, 9));
    let ev = s.take_events();
    apply_rules(&mut s, &rules, &ev[0]);
    assert_eq!(s.get("wide"), Some((3 << 7) | 9));

    // a GUI write of a half is not recombined
    s.set("wide_lsb", 1, Origin::Gui);
    let ev = s.take_events();
    apply_rules(&mut s, &rules, &ev[0]);
    assert_eq!(s.get("wide"), Some((3 << 7) | 9));
}

#[test]
fn effect_selection_drives_delay_switch() {
    let config = pod2_config();
    let rules = pod_core::mediator::effect_delay_rules(&config, "effect_select", "delay_enable");
    assert_eq!(rules.len(), 2);
    let mut s = Store::new(config);

    // "Auto Swell" turns the delay on
    s.set("effect_select", 2, Origin::Gui);
    let ev = s.take_events();
    apply_rules(&mut s, &rules, &ev[0]);
    assert_eq!(s.get("delay_enable"), Some(1));
    let ev = s.take_events();
    assert_eq!(ev.len(), 1);
    assert_eq!(ev[0].name, "delay_enable");
    assert_eq!(ev[0].origin, Origin::Gui);

    // "Rotary" turns it off
    s.set("effect_select", 8, Origin::Midi);
    let ev = s.take_events();
    apply_rules(&mut s, &rules, &ev[0]);
    assert_eq!(s.get("delay_enable"), Some(0));

    // "Chorus 1" leaves it alone
    s.set("delay_enable", 1, Origin::Internal);
    s.take_events();
    s.set("effect_select", 3, Origin::Gui);
    let ev = s.take_events();
    apply_rules(&mut s, &rules, &ev[0]);
    assert_eq!(s.get("delay_enable"), Some(1));
}

#[test]
fn delay_switch_resets_conflicting_effect() {
    let config = pod2_config();
    let rules = pod_core::mediator::effect_delay_rules(&config, "effect_select", "delay_enable");
    let mut s = Store::new(config);
    s.set("effect_select", 8, Origin::Internal);
    s.take_events();
    s.set("delay_enable", 1, Origin::Gui);
    let ev = s.take_events();
    apply_rules(&mut s, &rules, &ev[0]);
    assert_eq!(s.get("effect_select"), Some(0));

    // with an effect that allows the delay nothing changes
    s.set("effect_select", 5, Origin::Internal);
    s.set("delay_enable", 0, Origin::Internal);
    s.take_events();
    s.set("delay_enable", 1, Origin::Gui);
    let ev = s.take_events();
    apply_rules(&mut s, &rules, &ev[0]);
    assert_eq!(s.get("effect_select"), Some(5));
}

fn stomp_config() -> Config {
    let mut c = pod2_config();
    c.controls.push(("stomp_param2".to_string(), Control::RangeControl(RangeControl { cc: 79, from: 0, to: 127 })));
    c.controls.push(("stomp_param2_wave".to_string(), Control::RangeControl(RangeControl { cc: 103, from: 0, to: 7 })));
    c.controls.push(("stomp_param2_octave".to_string(), Control::RangeControl(RangeControl { cc: 104, from: 0, to: 3 })));
    c
}

#[test]
fn packed_parameter_unpacks_to_fields() {
    let fields = vec!["stomp_param2_wave".to_string(), "stomp_param2_octave".to_string()];
    let rules = pod_core::mediator::compound_rules("stomp_param2", &fields);
    assert_eq!(rules.len(), 4);
    let mut s = Store::new(stomp_config());
    assert!(receive_cc(&mut s, 79, 90));
    let ev = s.take_events();
    apply_rules(&mut s, &rules, &ev[0]);
    assert_eq!(s.get("stomp_param2_wave"), Some(90 / 18));
    assert_eq!(s.get("stomp_param2_octave"), Some(90 / 42));
    let ev = s.take_events();
    let tags: Vec<(&str, Origin)> = ev.iter().map(|e| (e.name.as_str(), e.origin)).collect();
    assert_eq!(tags, vec![("stomp_param2_wave", Origin::Midi), ("stomp_param2_octave", Origin::Midi)]);
    for e in &ev {
        assert!(outbound_message(&s, e).is_none());
        apply_rules(&mut s, &rules, e);
    }
    assert_eq!(s.get("stomp_param2"), Some(90));
}

#[test]
fn field_packs_into_parameter_from_gui() {
    let fields = vec!["stomp_param2_wave".to_string(), "stomp_param2_octave".to_string()];
    let rules = pod_core::mediator::compound_rules("stomp_param2", &fields);
    let mut s = Store::new(stomp_config());
    s.set("stomp_param2_wave", 3, Origin::Gui);
    let ev = s.take_events();
    apply_rules(&mut s, &rules, &ev[0]);
    assert_eq!(s.get("stomp_param2"), Some(3 * 18));
    let ev = s.take_events();
    assert_eq!(ev.len(), 1);
    assert_eq!(ev[0].origin, Origin::Gui);
    assert_eq!(cc_of(outbound_message(&s, &ev[0])), (1, 79, 54));
}

#[test]
fn settle_runs_rule_cascade_in_order() {
    let mut rules = split_14bit_rules("wide", "wide_msb", "wide_lsb");
    let mut s = Store::new(wide_config());
    s.set("wide", 300, Origin::Gui);
    let (events, dry) = pod_core::mediator::settle(&mut s, &rules, 16);
    assert!(dry);
    let tags: Vec<(&str, Origin)> = events.iter().map(|e| (e.name.as_str(), e.origin)).collect();
    assert_eq!(tags, vec![("wide", Origin::Gui), ("wide_msb", Origin::Gui), ("wide_lsb", Origin::Gui)]);
    assert!(!s.has_events());

    // a rule that keeps forcing its own trigger is cut off by the budget
    rules = split_14bit_rules("wide", "wide", "wide_lsb");
    s.set("wide", 5, Origin::Gui);
    let (events, dry) = pod_core::mediator::settle(&mut s, &rules, 10);
    assert!(!dry);
    assert_eq!(events.len(), 10);
    assert!(s.has_events());
}

#[test]
fn pop_event_takes_oldest() {
    let mut s = pod2_store();
    assert!(s.pop_event().is_none());
    s.set("bass", 1, Origin::Gui);
    s.set("mid", 2, Origin::Midi);
    assert_eq!(s.pop_event().map(|e| e.name), Some("bass".to_string()));
    assert_eq!(s.pop_event().map(|e| e.name), Some("mid".to_string()));
    assert!(s.pop_event().is_none());
}

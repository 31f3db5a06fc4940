use pod_core::config::{configs, find_by_identity, find_by_name, pod2_config};
use pod_core::model::{Config, Control, GetCC, RangeControl, Select, SwitchControl};
use pod_core::store::{Origin, Signal, Store};

fn pod2_store() -> Store {
    Store::new(pod2_config())
}

#[test]
fn catalog_holds_pod2() {
    let all = configs();
    assert_eq!(all.len(), 1);
    let c = find_by_identity(&all, 0x0000, 0x0300).expect("POD 2.0");
    assert_eq!(c.name, "POD 2.0");
    assert_eq!(c.program_size, 71);
    assert_eq!(c.all_programs_size, 71 * 36);
    assert_eq!(c.pod_id, 0x01);
    assert_eq!(c.amp_models.len(), 28);
    assert_eq!(c.cab_models.len(), 16);
    assert_eq!(c.effects.len(), 9);
    assert_eq!(c.controls.len(), 49);
    assert!(find_by_identity(&all, 0x0000, 0x0301).is_none());
    assert!(find_by_name(&all, "POD 2.0").is_some());
    assert!(find_by_name(&all, "POD XT").is_none());
}

#[test]
fn new_store_is_zeroed() {
    let s = pod2_store();
    assert_eq!(s.get("drive"), Some(0));
    assert_eq!(s.get("nonexistent"), None);
    assert!(s.has("reverb_level"));
    assert!(!s.has("reverb"));
    assert_eq!(s.program(), vec![0u8; 71]);
}

#[test]
fn set_then_get_returns_value() {
    let mut s = pod2_store();
    for (name, v) in [("drive", 30u16), ("delay_enable", 1), ("amp_select", 5), ("gate_threshold", 96)] {
        s.set(name, v, Origin::Gui);
        assert_eq!(s.get(name), Some(v));
    }
    s.set_full("drive", 7, Origin::Midi, Signal::Force);
    assert_eq!(s.get("drive"), Some(7));
}

#[test]
fn unknown_name_is_dropped() {
    let mut s = pod2_store();
    s.set("no_such_control", 3, Origin::Gui);
    assert_eq!(s.get("no_such_control"), None);
    assert!(s.take_events().is_empty());
}

#[test]
fn unchanged_value_broadcasts_only_when_forced() {
    let mut s = pod2_store();
    s.set("bass", 12, Origin::Gui);
    let first = s.take_events();
    assert_eq!(first.len(), 1);
    assert_eq!(first[0].name, "bass");
    assert_eq!(first[0].origin, Origin::Gui);

    s.set_full("bass", 12, Origin::Gui, Signal::Change);
    assert!(s.take_events().is_empty());

    s.set_full("bass", 12, Origin::Internal, Signal::Force);
    let forced = s.take_events();
    assert_eq!(forced.len(), 1);
    assert_eq!(forced[0].name, "bass");
    assert_eq!(forced[0].origin, Origin::Internal);
    assert_eq!(s.get("bass"), Some(12));
}

#[test]
fn events_keep_write_order() {
    let mut s = pod2_store();
    s.set("bass", 1, Origin::Gui);
    s.set("mid", 2, Origin::Midi);
    s.set("treble", 3, Origin::Gui);
    let ev = s.take_events();
    let names: Vec<&str> = ev.iter().map(|e| e.name.as_str()).collect();
    assert_eq!(names, vec!["bass", "mid", "treble"]);
    assert!(s.take_events().is_empty());
}

#[test]
fn lookup_by_cc_finds_unique_control() {
    let s = pod2_store();
    let (name, c) = s.get_config_by_cc(13).expect("cc 13");
    assert_eq!(name, "drive");
    assert_eq!(c, Control::RangeControl(RangeControl { cc: 13, from: 0, to: 63 }));
    let (name, c) = s.get_config_by_cc(28).expect("cc 28");
    assert_eq!(name, "delay_enable");
    assert_eq!(c, Control::SwitchControl(SwitchControl { cc: 28 }));
    let (name, _) = s.get_config_by_cc(12).expect("cc 12");
    assert_eq!(name, "amp_select");
    assert!(s.get_config_by_cc(127).is_none());
}

#[test]
fn lookup_by_shared_cc_takes_first() {
    let s = pod2_store();
    let (name, _) = s.get_config_by_cc(7).expect("cc 7");
    assert_eq!(name, "vol_level");
}

#[test]
fn get_config_by_name() {
    let s = pod2_store();
    assert_eq!(s.get_config("amp_select"), Some(Control::Select(Select { cc: 12 })));
    assert_eq!(
        s.get_config("compression_ratio"),
        Some(Control::RangeControl(RangeControl { cc: 42, from: 0, to: 6 }))
    );
    assert_eq!(s.get_config("nope"), None);
}

#[test]
fn load_program_replaces_edit_buffer() {
    let mut s = pod2_store();
    let data: Vec<u8> = (0..71u8).collect();
    s.load_program(data.clone());
    assert_eq!(s.program(), data);
}

#[test]
fn control_descriptors() {
    assert_eq!(Control::from(SwitchControl { cc: 25 }).get_cc(), Some(25));
    assert_eq!(Control::from(Select { cc: 71 }).get_cc(), Some(71));
    let r = RangeControl::default();
    assert_eq!((r.cc, r.from, r.to), (0, 0, 127));
    assert_eq!(Control::from(r).get_cc(), Some(0));
    assert_eq!(SwitchControl { cc: 3 }.get_cc(), Some(3));
    assert_eq!(RangeControl { cc: 4, from: 0, to: 63 }.get_cc(), Some(4));
    assert_eq!(Select { cc: 5 }.get_cc(), Some(5));
    assert_eq!(Control::SwitchControl(SwitchControl { cc: 1 }).scale(), 64);
    assert_eq!(Control::RangeControl(RangeControl { cc: 1, from: 0, to: 63 }).scale(), 2);
    assert_eq!(Control::RangeControl(RangeControl { cc: 1, from: 0, to: 6 }).scale(), 21);
    assert_eq!(Control::RangeControl(RangeControl { cc: 1, from: 0, to: 96 }).scale(), 1);
    assert_eq!(Control::RangeControl(RangeControl { cc: 1, from: 0, to: 127 }).scale(), 1);
    assert_eq!(Control::Select(Select { cc: 1 }).scale(), 1);
}

#[test]
fn config_is_plain_data() {
    let c: Config = pod2_config();
    assert_eq!(c.family, 0);
    assert_eq!(c.member, 0x0300);
    assert_eq!(c.amp_models[4].name, "POD Layer");
    assert!(c.amp_models[4].delay2);
    assert_eq!(c.effects[2].delay, Some(true));
    assert_eq!(c.effects[8].delay, Some(false));
    assert_eq!(c.effects[0].delay, None);
}

#[test]
fn pod2_control_map_entries() {
    let c = pod2_config();
    let find = |n: &str| c.controls.iter().filter(|e| e.0 == n).map(|e| e.1).collect::<Vec<_>>();
    assert_eq!(find("drive"), vec![Control::RangeControl(RangeControl { cc: 13, from: 0, to: 63 })]);
    assert_eq!(find("delay_enable"), vec![Control::SwitchControl(SwitchControl { cc: 28 })]);
    assert_eq!(find("amp_select"), vec![Control::Select(Select { cc: 12 })]);
    for (i, a) in c.controls.iter().enumerate() {
        for b in &c.controls[i + 1..] {
            assert_ne!(a.0, b.0);
            if a.1.get_cc() == b.1.get_cc() {
                assert_eq!(a.1.get_cc(), Some(7));
            }
        }
    }
}

#[test]
fn usable_configs_have_distinct_names() {
    let mut c = pod2_config();
    assert!(c.is_usable());
    c.controls.push(("drive".to_string(), Control::SwitchControl(SwitchControl { cc: 90 })));
    assert!(!c.is_usable());
    let mut c = pod2_config();
    c.controls.push(("broken".to_string(), Control::RangeControl(RangeControl { cc: 90, from: 0, to: 0 })));
    assert!(!c.is_usable());
}

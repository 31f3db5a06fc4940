use pod_core::discovery::{is_known_reply, Discovery, DiscoveryError, DiscoveryStep, Probe};
use pod_core::config::configs;
use pod_core::midi::{CodecError, MidiMessage};
use pod_core::ports::{
    candidate_ports, ends_with, parse_index, parse_selector, select_port, starts_with, PortError,
    PortSelector,
};
use pod_core::packs::{is_sensitive, XtPacks};
use pod_core::util::{next_thread_id, ToSome};

fn round_trip(m: MidiMessage) -> Vec<u8> {
    let bytes = m.to_bytes();
    let back = MidiMessage::from_bytes(&bytes).expect("decodes");
    assert_eq!(format!("{:?}", back), format!("{:?}", m));
    bytes
}

#[test]
fn codec_frames() {
    assert_eq!(round_trip(MidiMessage::ControlChange { channel: 1, control: 13, value: 60 }), vec![0xb1, 13, 60]);
    assert_eq!(
        round_trip(MidiMessage::UniversalDeviceInquiry { channel: 0x7f }),
        vec![0xf0, 0x7e, 0x7f, 0x06, 0x01, 0xf7]
    );
    assert_eq!(
        round_trip(MidiMessage::UniversalDeviceInquiryResponse {
            channel: 0x7f,
            family: 0x0000,
            member: 0x0300,
            ver: b"0223".to_vec(),
        }),
        vec![0xf0, 0x7e, 0x7f, 0x06, 0x02, 0x00, 0x01, 0x0c, 0x00, 0x00, 0x00, 0x03, 0x30, 0x32, 0x32, 0x33, 0xf7]
    );
    assert_eq!(
        round_trip(MidiMessage::ProgramEditBufferDumpRequest),
        vec![0xf0, 0x00, 0x01, 0x0c, 0x01, 0x00, 0x01, 0xf7]
    );
    assert_eq!(
        round_trip(MidiMessage::ProgramPatchDumpRequest { patch: 3 }),
        vec![0xf0, 0x00, 0x01, 0x0c, 0x01, 0x00, 0x00, 0x03, 0xf7]
    );
    assert_eq!(
        round_trip(MidiMessage::ProgramEditBufferDump { ver: 0, data: vec![0xab, 0x01] }),
        vec![0xf0, 0x00, 0x01, 0x0c, 0x01, 0x01, 0x01, 0x00, 0x0a, 0x0b, 0x00, 0x01, 0xf7]
    );
    assert_eq!(
        round_trip(MidiMessage::ProgramPatchDump { patch: 2, ver: 1, data: vec![0x7f] }),
        vec![0xf0, 0x00, 0x01, 0x0c, 0x01, 0x01, 0x00, 0x02, 0x01, 0x07, 0x0f, 0xf7]
    );
    let full = MidiMessage::ProgramEditBufferDump { ver: 0, data: (0..71u8).collect() };
    assert_eq!(round_trip(full).len(), 8 + 142 + 1);
}

#[test]
fn codec_errors() {
    assert!(matches!(MidiMessage::from_bytes(&[]), Err(CodecError::ShortFrame)));
    assert!(matches!(
        MidiMessage::from_bytes(&[0xb0, 1]),
        Err(CodecError::BadLength { expected: 3, got: 2 })
    ));
    assert!(matches!(MidiMessage::from_bytes(&[0x90, 60, 100]), Err(CodecError::UnknownOpcode)));
    assert!(matches!(MidiMessage::from_bytes(&[0xf0, 0x7e, 0x7f, 0x06, 0x01]), Err(CodecError::ShortFrame)));
    assert!(matches!(
        MidiMessage::from_bytes(&[0xf0, 0x00, 0x20, 0x33, 0x01, 0x00, 0x01, 0xf7]),
        Err(CodecError::BadVendor)
    ));
    assert!(matches!(
        MidiMessage::from_bytes(&[0xf0, 0x00, 0x01, 0x0c, 0x01, 0x05, 0x05, 0xf7]),
        Err(CodecError::UnknownOpcode)
    ));
    assert!(matches!(
        MidiMessage::from_bytes(&[0xf0, 0x7e, 0x7f, 0x06, 0x01, 0x00, 0xf7]),
        Err(CodecError::BadLength { expected: 6, got: 7 })
    ));
    assert!(matches!(
        MidiMessage::from_bytes(&[0xf0, 0x00, 0x01, 0x0c, 0x01, 0x01, 0x01, 0x00, 0x0a, 0xf7]),
        Err(CodecError::ShortFrame)
    ));
}

fn probe(step: DiscoveryStep) -> Probe {
    match step {
        DiscoveryStep::Probe(p) => p,
        other => panic!("expected a probe, got {:?}", other),
    }
}

#[test]
fn discovery_happy_path() {
    // inputs A, B; outputs X, Y, Z; Y and B are the device
    let (mut d, first) = Discovery::start(2, 3).unwrap();
    assert_eq!(first, Probe { outputs_from: 0, outputs_to: 3, input: None });
    let p = probe(d.step(&vec![1]));
    assert_eq!(p, Probe { outputs_from: 0, outputs_to: 2, input: Some(1) });
    let p = probe(d.step(&vec![1]));
    assert_eq!(p, Probe { outputs_from: 0, outputs_to: 1, input: Some(1) });
    assert_eq!(d.step(&vec![]), DiscoveryStep::Found { input: 1, output: 1 });
    assert!(d.is_finished());
    assert_eq!(d.windows(), 3);
}

#[test]
fn discovery_ambiguous_inputs() {
    let (mut d, _) = Discovery::start(2, 1).unwrap();
    assert_eq!(d.step(&vec![0, 1]), DiscoveryStep::Failed(DiscoveryError::AmbiguousInputs));
}

#[test]
fn discovery_failures() {
    assert!(matches!(Discovery::start(0, 3), Err(DiscoveryError::NoInputPorts)));
    assert!(matches!(Discovery::start(2, 0), Err(DiscoveryError::NoOutputPorts)));
    let (mut d, _) = Discovery::start(2, 3).unwrap();
    assert_eq!(d.step(&vec![]), DiscoveryStep::Failed(DiscoveryError::NoResponse));
    let (mut d, _) = Discovery::start(2, 3).unwrap();
    assert_eq!(d.step(&vec![7]), DiscoveryStep::Failed(DiscoveryError::NoResponse));
    let (mut d, _) = Discovery::start(3, 1).unwrap();
    assert_eq!(d.step(&vec![2, 2]), DiscoveryStep::Found { input: 2, output: 0 });
}

#[test]
fn discovery_window_bound() {
    for n in 1..=33usize {
        for target in 0..n {
            let (mut d, _) = Discovery::start(2, n).unwrap();
            let mut pending = Probe { outputs_from: 0, outputs_to: n, input: None };
            let found = loop {
                let hit = pending.outputs_from <= target && target < pending.outputs_to;
                let answers = if hit { vec![0] } else { vec![] };
                match d.step(&answers) {
                    DiscoveryStep::Probe(p) => pending = p,
                    DiscoveryStep::Found { input, output } => break (input, output),
                    DiscoveryStep::Failed(e) => panic!("failed: {:?}", e),
                }
            };
            assert_eq!(found, (0, target));
            let log2 = (usize::BITS - (n - 1).leading_zeros()) as usize;
            assert!(d.windows() <= log2 + 1, "n={} windows={}", n, d.windows());
        }
    }
}

#[test]
fn known_reply_recognised() {
    let cat = configs();
    let pod = MidiMessage::UniversalDeviceInquiryResponse { channel: 0x7f, family: 0, member: 0x0300, ver: b"0223".to_vec() };
    assert!(is_known_reply(&pod.to_bytes(), &cat));
    let other = MidiMessage::UniversalDeviceInquiryResponse { channel: 0x7f, family: 2, member: 0x0300, ver: b"0100".to_vec() };
    assert!(!is_known_reply(&other.to_bytes(), &cat));
    assert!(!is_known_reply(&[0xb0, 1, 2], &cat));
}

#[test]
fn selector_parsing() {
    assert!(matches!(parse_selector("20:0"), Ok(PortSelector::Address(a)) if a == "20:0"));
    assert!(matches!(parse_selector("hw 24:0"), Ok(PortSelector::Address(a)) if a == "hw 24:0"));
    assert!(matches!(parse_selector("2"), Ok(PortSelector::Index(2))));
    assert!(matches!(parse_selector("+3"), Ok(PortSelector::Index(3))));
    assert!(matches!(parse_selector("pod"), Err(PortError::BadAddress)));
    assert!(matches!(parse_selector("a1"), Err(PortError::BadAddress)));
    assert!(matches!(parse_selector(""), Err(PortError::BadAddress)));
}

#[test]
fn index_parsing() {
    assert_eq!(parse_index("0"), Some(0));
    assert_eq!(parse_index("42"), Some(42));
    assert_eq!(parse_index("+7"), Some(7));
    assert_eq!(parse_index(""), None);
    assert_eq!(parse_index("+"), None);
    assert_eq!(parse_index("1x"), None);
    assert_eq!(parse_index("-1"), None);
    assert_eq!(parse_index(&usize::MAX.to_string()), Some(usize::MAX));
    assert_eq!(parse_index("99999999999999999999999"), None);
}

#[test]
fn port_selection() {
    let names: Vec<String> = vec![
        "Midi Through:Midi Through Port-0 14:0".to_string(),
        "POD 2.0:POD 2.0 MIDI 1 24:0".to_string(),
        "pod midi out:out 128:0".to_string(),
    ];
    assert_eq!(select_port(&names, &PortSelector::Index(1)).unwrap(), 1);
    assert!(matches!(select_port(&names, &PortSelector::Index(3)), Err(PortError::NotFound)));
    assert_eq!(select_port(&names, &PortSelector::Address("24:0".to_string())).unwrap(), 1);
    assert!(matches!(select_port(&names, &PortSelector::Address("25:0".to_string())), Err(PortError::NotFound)));
    assert_eq!(select_port(&names, &PortSelector::Name("pod midi out:out 128:0".to_string())).unwrap(), 2);
    assert!(matches!(select_port(&names, &PortSelector::Name("POD 2.0".to_string())), Err(PortError::NotFound)));
    assert_eq!(candidate_ports(&names, "pod midi out:"), vec![0, 1]);
    assert_eq!(candidate_ports(&names, "pod midi in:"), vec![0, 1, 2]);
}

#[test]
fn string_affixes() {
    assert!(ends_with("abc 24:0", "24:0"));
    assert!(!ends_with("24:0", "abc 24:0"));
    assert!(ends_with("x", ""));
    assert!(starts_with("pod midi in: 1", "pod midi in:"));
    assert!(!starts_with("pod", "pod midi"));
}

#[test]
fn running_ids() {
    let mut c: usize = 0;
    assert_eq!(next_thread_id(&mut c), 0);
    assert_eq!(next_thread_id(&mut c), 1);
    assert_eq!(c, 2);
    let mut m = usize::MAX;
    assert_eq!(next_thread_id(&mut m), usize::MAX);
    assert_eq!(m, 0);
    assert_eq!(5u8.some(), Some(5u8));
}

#[test]
fn expansion_pack_availability() {
    let none = XtPacks { ms: false, cc: false, bx: false, fx: false };
    let ms_only = XtPacks { ms: true, ..none };
    assert!(is_sensitive(none, "Tube Preamp"));
    assert!(!is_sensitive(none, "MS-Bomber Uber"));
    assert!(is_sensitive(ms_only, "MS-Bomber Uber"));
    assert!(!is_sensitive(ms_only, "CC-Tweed Blues"));
    assert!(is_sensitive(XtPacks { cc: true, ..none }, "CC-Tweed Blues"));
    assert!(is_sensitive(XtPacks { bx: true, ..none }, "BX-Eighties"));
    assert!(!is_sensitive(none, "FX-Tube Drive"));
    assert!(is_sensitive(XtPacks { fx: true, ..none }, "FX-Tube Drive"));
    assert!(is_sensitive(none, "MS"));
}

#[test]
fn port_selection_takes_last_match() {
    let names: Vec<String> = vec!["a 20:0".to_string(), "b 20:0".to_string(), "a 20:0".to_string(), "c 21:0".to_string()];
    assert_eq!(select_port(&names, &PortSelector::Address("20:0".to_string())).unwrap(), 2);
    assert_eq!(select_port(&names, &PortSelector::Name("a 20:0".to_string())).unwrap(), 2);
    assert_eq!(select_port(&names, &PortSelector::Name("b 20:0".to_string())).unwrap(), 1);
    assert_eq!(select_port(&names, &PortSelector::Address("21:0".to_string())).unwrap(), 3);
}

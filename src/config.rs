use vstd::prelude::*;
use crate::model::{Amp, Config, Control, GetCC, RangeControl, Select, SwitchControl, names_unique};

verus! {

fn amp(name: &str, presence: bool, bright_switch: bool, delay2: bool) -> (r: Amp)
    ensures
        r.name@ == name@,
        r.presence == presence,
        r.bright_switch == bright_switch,
        r.delay2 == delay2,
{
    Amp { name: String::from_str(name), bright_switch, presence, delay2 }
}

fn effect(name: &str, delay: Option<bool>) -> (r: crate::model::Effect)
    ensures
        r.name@ == name@,
        r.delay == delay,
{
    crate::model::Effect { name: String::from_str(name), delay }
}

fn switch(name: &str, cc: u8) -> (r: (String, Control))
    ensures
        r.0@ == name@,
        r.1 == Control::SwitchControl(SwitchControl { cc }),
{
    (String::from_str(name), Control::SwitchControl(SwitchControl { cc }))
}

fn range(name: &str, cc: u8, from: u8, to: u8) -> (r: (String, Control))
    ensures
        r.0@ == name@,
        r.1 == Control::RangeControl(RangeControl { cc, from, to }),
{
    (String::from_str(name), Control::RangeControl(RangeControl { cc, from, to }))
}

fn select(name: &str, cc: u8) -> (r: (String, Control))
    ensures
        r.0@ == name@,
        r.1 == Control::Select(Select { cc }),
{
    (String::from_str(name), Control::Select(Select { cc }))
}

/// Bytes of one POD 2.0 program.
pub const POD2_PROGRAM_SIZE: usize = 71;

/// Programs held by a POD 2.0.
pub const POD2_PROGRAMS: usize = 36;

fn pod2_amps() -> (r: Vec<Amp>)
    ensures
        r@.len() == 28,
{
    let mut v: Vec<Amp> = Vec::new();
    v.push(amp("Tube Preamp", true, false, false));
    v.push(amp("POD Clean", true, true, false));
    v.push(amp("POD Crunch", true, true, false));
    v.push(amp("POD Drive", true, true, false));
    v.push(amp("POD Layer", true, true, true));
    v.push(amp("Small Tweed", false, false, false));
    v.push(amp("Tweed Blues", true, false, false));
    v.push(amp("Black Panel", false, false, false));
    v.push(amp("Modern Class A", true, false, false));
    v.push(amp("Brit Class A", false, false, false));
    v.push(amp("Brit Blues", true, true, false));
    v.push(amp("Brit Classic", true, false, false));
    v.push(amp("Brit Hi Gain", true, false, false));
    v.push(amp("Rectified", true, false, false));
    v.push(amp("Modern Hi Gain", false, false, false));
    v.push(amp("Fuzz Box", true, false, false));
    v.push(amp("Jazz Clean", true, true, false));
    v.push(amp("Boutique #1", true, false, false));
    v.push(amp("Boutique #2", false, false, false));
    v.push(amp("Brit Class A #2", false, false, false));
    v.push(amp("Brit Class A #3", false, false, false));
    v.push(amp("Small Tweed #2", false, false, false));
    v.push(amp("Black Panel #2", false, true, false));
    v.push(amp("Boutique #3", true, false, false));
    v.push(amp("California Crunch #1", true, true, false));
    v.push(amp("California Crunch #2", true, false, false));
    v.push(amp("Rectified #2", true, false, false));
    v.push(amp("Modern Hi Gain #2", true, false, false));
    v
}

fn pod2_cabs() -> (r: Vec<String>)
    ensures
        r@.len() == 16,
{
    let mut v: Vec<String> = Vec::new();
    v.push(String::from_str("1x8  '60 Fender Tweed Champ"));
    v.push(String::from_str("1x12 ’52 Fender Tweed Deluxe"));
    v.push(String::from_str("1x12 ’60 Vox AC15"));
    v.push(String::from_str("1x12 ’64 Fender Blackface Deluxe"));
    v.push(String::from_str("1x12 ’98 Line 6 Flextone"));
    v.push(String::from_str("2x12 ’65 Fender Blackface Twin"));
    v.push(String::from_str("2x12 ’67 VOX AC30"));
    v.push(String::from_str("2x12 ’95 Matchless Chieftain"));
    v.push(String::from_str("2x12 ’98 Pod custom 2x12"));
    v.push(String::from_str("4x10 ’59 Fender Bassman"));
    v.push(String::from_str("4x10 ’98 Pod custom 4x10 cab"));
    v.push(String::from_str("4x12 ’96 Marshall with V30s"));
    v.push(String::from_str("4x12 ’78 Marshall with 70s"));
    v.push(String::from_str("4x12 ’97 Marshall off axis"));
    v.push(String::from_str("4x12 ’98 Pod custom 4x12"));
    v.push(String::from_str("No Cabinet"));
    v
}

fn pod2_effects() -> (r: Vec<crate::model::Effect>)
    ensures
        r@.len() == 9,
{
    let mut v: Vec<crate::model::Effect> = Vec::new();
    v.push(effect("Bypass", None));
    v.push(effect("Compressor", None));
    v.push(effect("Auto Swell", Some(true)));
    v.push(effect("Chorus 1", None));
    v.push(effect("Chorus 2", None));
    v.push(effect("Flanger 1", None));
    v.push(effect("Flanger 2", None));
    v.push(effect("Tremolo", None));
    v.push(effect("Rotary", Some(false)));
    v
}

/// The POD 2.0 control map: names and descriptors, in catalog order.
pub open spec fn pod2_control_map() -> Seq<(Seq<char>, Control)> {
    seq![
        ("distortion_enable"@, Control::SwitchControl(SwitchControl { cc: 25 })),
        ("drive_enable"@, Control::SwitchControl(SwitchControl { cc: 26 })),
        ("eq_enable"@, Control::SwitchControl(SwitchControl { cc: 27 })),
        ("delay_enable"@, Control::SwitchControl(SwitchControl { cc: 28 })),
        ("effect_enable"@, Control::SwitchControl(SwitchControl { cc: 50 })),
        ("reverb_enable"@, Control::SwitchControl(SwitchControl { cc: 36 })),
        ("noise_gate_enable"@, Control::SwitchControl(SwitchControl { cc: 22 })),
        ("bright_switch_enable"@, Control::SwitchControl(SwitchControl { cc: 73 })),
        ("amp_select"@, Control::Select(Select { cc: 12 })),
        ("drive"@, Control::RangeControl(RangeControl { cc: 13, from: 0, to: 63 })),
        ("drive2"@, Control::RangeControl(RangeControl { cc: 20, from: 0, to: 63 })),
        ("bass"@, Control::RangeControl(RangeControl { cc: 14, from: 0, to: 63 })),
        ("mid"@, Control::RangeControl(RangeControl { cc: 15, from: 0, to: 63 })),
        ("treble"@, Control::RangeControl(RangeControl { cc: 16, from: 0, to: 63 })),
        ("presence"@, Control::RangeControl(RangeControl { cc: 21, from: 0, to: 63 })),
        ("chan_volume"@, Control::RangeControl(RangeControl { cc: 17, from: 0, to: 63 })),
        ("gate_threshold"@, Control::RangeControl(RangeControl { cc: 23, from: 0, to: 96 })),
        ("gate_decay"@, Control::RangeControl(RangeControl { cc: 24, from: 0, to: 63 })),
        ("wah_level"@, Control::RangeControl(RangeControl { cc: 4, from: 0, to: 127 })),
        ("wah_bottom_freq"@, Control::RangeControl(RangeControl { cc: 44, from: 0, to: 127 })),
        ("wah_top_freq"@, Control::RangeControl(RangeControl { cc: 45, from: 0, to: 127 })),
        ("vol_level"@, Control::RangeControl(RangeControl { cc: 7, from: 0, to: 127 })),
        ("vol_minimum"@, Control::RangeControl(RangeControl { cc: 7, from: 0, to: 127 })),
        ("vol_pedal_position"@, Control::SwitchControl(SwitchControl { cc: 47 })),
        ("delay_time"@, Control::RangeControl(RangeControl { cc: 30, from: 0, to: 127 })),
        ("delay_time:fine"@, Control::RangeControl(RangeControl { cc: 62, from: 0, to: 127 })),
        ("delay_feedback"@, Control::RangeControl(RangeControl { cc: 32, from: 0, to: 63 })),
        ("delay_level"@, Control::RangeControl(RangeControl { cc: 34, from: 0, to: 63 })),
        ("reverb_type"@, Control::SwitchControl(SwitchControl { cc: 37 })),
        ("reverb_decay"@, Control::RangeControl(RangeControl { cc: 38, from: 0, to: 63 })),
        ("reverb_tone"@, Control::RangeControl(RangeControl { cc: 39, from: 0, to: 63 })),
        ("reverb_diffusion"@, Control::RangeControl(RangeControl { cc: 40, from: 0, to: 63 })),
        ("reverb_density"@, Control::RangeControl(RangeControl { cc: 41, from: 0, to: 63 })),
        ("reverb_level"@, Control::RangeControl(RangeControl { cc: 18, from: 0, to: 63 })),
        ("cab_select"@, Control::Select(Select { cc: 71 })),
        ("air"@, Control::RangeControl(RangeControl { cc: 72, from: 0, to: 63 })),
        ("effect_select"@, Control::RangeControl(RangeControl { cc: 19, from: 0, to: 15 })),
        ("effect_tweak"@, Control::RangeControl(RangeControl { cc: 1, from: 0, to: 63 })),
        ("volume_swell_time"@, Control::RangeControl(RangeControl { cc: 49, from: 0, to: 63 })),
        ("compression_ratio"@, Control::RangeControl(RangeControl { cc: 42, from: 0, to: 6 })),
        ("chorus_flanger_speed"@, Control::RangeControl(RangeControl { cc: 51, from: 0, to: 127 })),
        ("chorus_flanger_depth"@, Control::RangeControl(RangeControl { cc: 52, from: 0, to: 127 })),
        ("chorus_flanger_feedback"@, Control::RangeControl(RangeControl { cc: 53, from: 0, to: 127 })),
        ("chorus_flanger_pre_delay"@, Control::RangeControl(RangeControl { cc: 54, from: 0, to: 127 })),
        ("rotary_speed"@, Control::SwitchControl(SwitchControl { cc: 55 })),
        ("rotary_fast_speed"@, Control::RangeControl(RangeControl { cc: 56, from: 0, to: 127 })),
        ("rotary_slow_speed"@, Control::RangeControl(RangeControl { cc: 57, from: 0, to: 127 })),
        ("trem_speed"@, Control::RangeControl(RangeControl { cc: 58, from: 0, to: 127 })),
        ("trem_depth"@, Control::RangeControl(RangeControl { cc: 59, from: 0, to: 127 })),
    ]
}

/// Length and three characters of a name: enough to tell the POD 2.0
/// control names apart.
spec fn name_key(s: Seq<char>) -> (nat, char, char, char) {
    (s.len(), s[1], s[s.len() - 3], if s.len() > 7 {
        s[7]
    } else {
        ' '
    })
}

/// Two controls share a CC only when it is `shared`.
pub open spec fn ccs_unique_except(controls: Seq<(String, Control)>, shared: u8) -> bool {
    forall|i: int, j: int|
        0 <= i < j < controls.len() && (#[trigger] controls[i]).1.cc_spec() == (#[trigger] controls[j]).1.cc_spec()
            ==> controls[i].1.cc_spec() == Some(shared)
}

/// Position of a POD 2.0 control name, found by its key; -1 for others.
spec fn pod2_name_index(s: Seq<char>) -> int {
    if name_key(s) == (17nat, 'i', 'b', 'i') {
        0
    } else if name_key(s) == (12nat, 'r', 'b', 'n') {
        1
    } else if name_key(s) == (9nat, 'q', 'b', 'l') {
        2
    } else if name_key(s) == (12nat, 'e', 'b', 'n') {
        3
    } else if name_key(s) == (13nat, 'f', 'b', 'e') {
        4
    } else if name_key(s) == (13nat, 'e', 'b', 'e') {
        5
    } else if name_key(s) == (17nat, 'o', 'b', 'a') {
        6
    } else if name_key(s) == (20nat, 'r', 'b', 's') {
        7
    } else if name_key(s) == (10nat, 'm', 'e', 'e') {
        8
    } else if name_key(s) == (5nat, 'r', 'i', ' ') {
        9
    } else if name_key(s) == (6nat, 'r', 'v', ' ') {
        10
    } else if name_key(s) == (4nat, 'a', 'a', ' ') {
        11
    } else if name_key(s) == (3nat, 'i', 'm', ' ') {
        12
    } else if name_key(s) == (6nat, 'r', 'b', ' ') {
        13
    } else if name_key(s) == (8nat, 'r', 'n', 'e') {
        14
    } else if name_key(s) == (11nat, 'h', 'u', 'l') {
        15
    } else if name_key(s) == (14nat, 'a', 'o', 'r') {
        16
    } else if name_key(s) == (10nat, 'a', 'c', 'c') {
        17
    } else if name_key(s) == (9nat, 'a', 'v', 'e') {
        18
    } else if name_key(s) == (15nat, 'a', 'r', 't') {
        19
    } else if name_key(s) == (12nat, 'a', 'r', '_') {
        20
    } else if name_key(s) == (9nat, 'o', 'v', 'e') {
        21
    } else if name_key(s) == (11nat, 'o', 'm', 'i') {
        22
    } else if name_key(s) == (18nat, 'o', 'i', 'a') {
        23
    } else if name_key(s) == (10nat, 'e', 'i', 'i') {
        24
    } else if name_key(s) == (15nat, 'e', 'i', 'i') {
        25
    } else if name_key(s) == (14nat, 'e', 'a', 'e') {
        26
    } else if name_key(s) == (11nat, 'e', 'v', 'e') {
        27
    } else if name_key(s) == (11nat, 'e', 'y', 't') {
        28
    } else if name_key(s) == (12nat, 'e', 'c', 'd') {
        29
    } else if name_key(s) == (11nat, 'e', 'o', 't') {
        30
    } else if name_key(s) == (16nat, 'e', 'i', 'd') {
        31
    } else if name_key(s) == (14nat, 'e', 'i', 'd') {
        32
    } else if name_key(s) == (12nat, 'e', 'v', 'l') {
        33
    } else if name_key(s) == (10nat, 'a', 'e', 'e') {
        34
    } else if name_key(s) == (3nat, 'i', 'a', ' ') {
        35
    } else if name_key(s) == (13nat, 'f', 'e', 's') {
        36
    } else if name_key(s) == (12nat, 'f', 'e', 't') {
        37
    } else if name_key(s) == (17nat, 'o', 'i', 's') {
        38
    } else if name_key(s) == (17nat, 'o', 't', 's') {
        39
    } else if name_key(s) == (20nat, 'h', 'e', 'f') {
        40
    } else if name_key(s) == (20nat, 'h', 'p', 'f') {
        41
    } else if name_key(s) == (23nat, 'h', 'a', 'f') {
        42
    } else if name_key(s) == (24nat, 'h', 'l', 'f') {
        43
    } else if name_key(s) == (12nat, 'o', 'e', 's') {
        44
    } else if name_key(s) == (17nat, 'o', 'e', 'f') {
        45
    } else if name_key(s) == (17nat, 'o', 'e', 's') {
        46
    } else if name_key(s) == (10nat, 'r', 'e', 'e') {
        47
    } else if name_key(s) == (10nat, 'r', 'p', 'p') {
        48
    } else {
        -1
    }
}

#[verifier::rlimit(100)]
#[verifier::spinoff_prover]
proof fn lemma_pod2_names_unique()
    ensures
        forall|i: int, j: int|
            0 <= i < j < pod2_control_map().len() ==> (#[trigger] pod2_control_map()[i]).0 != (
            #[trigger] pod2_control_map()[j]).0,
{
    let m = pod2_control_map();
    reveal_strlit("distortion_enable");
    reveal_strlit("drive_enable");
    reveal_strlit("eq_enable");
    reveal_strlit("delay_enable");
    reveal_strlit("effect_enable");
    reveal_strlit("reverb_enable");
    reveal_strlit("noise_gate_enable");
    reveal_strlit("bright_switch_enable");
    reveal_strlit("amp_select");
    reveal_strlit("drive");
    reveal_strlit("drive2");
    reveal_strlit("bass");
    reveal_strlit("mid");
    reveal_strlit("treble");
    reveal_strlit("presence");
    reveal_strlit("chan_volume");
    reveal_strlit("gate_threshold");
    reveal_strlit("gate_decay");
    reveal_strlit("wah_level");
    reveal_strlit("wah_bottom_freq");
    reveal_strlit("wah_top_freq");
    reveal_strlit("vol_level");
    reveal_strlit("vol_minimum");
    reveal_strlit("vol_pedal_position");
    reveal_strlit("delay_time");
    reveal_strlit("delay_time:fine");
    reveal_strlit("delay_feedback");
    reveal_strlit("delay_level");
    reveal_strlit("reverb_type");
    reveal_strlit("reverb_decay");
    reveal_strlit("reverb_tone");
    reveal_strlit("reverb_diffusion");
    reveal_strlit("reverb_density");
    reveal_strlit("reverb_level");
    reveal_strlit("cab_select");
    reveal_strlit("air");
    reveal_strlit("effect_select");
    reveal_strlit("effect_tweak");
    reveal_strlit("volume_swell_time");
    reveal_strlit("compression_ratio");
    reveal_strlit("chorus_flanger_speed");
    reveal_strlit("chorus_flanger_depth");
    reveal_strlit("chorus_flanger_feedback");
    reveal_strlit("chorus_flanger_pre_delay");
    reveal_strlit("rotary_speed");
    reveal_strlit("rotary_fast_speed");
    reveal_strlit("rotary_slow_speed");
    reveal_strlit("trem_speed");
    reveal_strlit("trem_depth");
    assert(name_key(m[0].0) == (17nat, 'i', 'b', 'i'));
    assert(pod2_name_index(m[0].0) == 0);
    assert(name_key(m[1].0) == (12nat, 'r', 'b', 'n'));
    assert(pod2_name_index(m[1].0) == 1);
    assert(name_key(m[2].0) == (9nat, 'q', 'b', 'l'));
    assert(pod2_name_index(m[2].0) == 2);
    assert(name_key(m[3].0) == (12nat, 'e', 'b', 'n'));
    assert(pod2_name_index(m[3].0) == 3);
    assert(name_key(m[4].0) == (13nat, 'f', 'b', 'e'));
    assert(pod2_name_index(m[4].0) == 4);
    assert(name_key(m[5].0) == (13nat, 'e', 'b', 'e'));
    assert(pod2_name_index(m[5].0) == 5);
    assert(name_key(m[6].0) == (17nat, 'o', 'b', 'a'));
    assert(pod2_name_index(m[6].0) == 6);
    assert(name_key(m[7].0) == (20nat, 'r', 'b', 's'));
    assert(pod2_name_index(m[7].0) == 7);
    assert(name_key(m[8].0) == (10nat, 'm', 'e', 'e'));
    assert(pod2_name_index(m[8].0) == 8);
    assert(name_key(m[9].0) == (5nat, 'r', 'i', ' '));
    assert(pod2_name_index(m[9].0) == 9);
    assert(name_key(m[10].0) == (6nat, 'r', 'v', ' '));
    assert(pod2_name_index(m[10].0) == 10);
    assert(name_key(m[11].0) == (4nat, 'a', 'a', ' '));
    assert(pod2_name_index(m[11].0) == 11);
    assert(name_key(m[12].0) == (3nat, 'i', 'm', ' '));
    assert(pod2_name_index(m[12].0) == 12);
    assert(name_key(m[13].0) == (6nat, 'r', 'b', ' '));
    assert(pod2_name_index(m[13].0) == 13);
    assert(name_key(m[14].0) == (8nat, 'r', 'n', 'e'));
    assert(pod2_name_index(m[14].0) == 14);
    assert(name_key(m[15].0) == (11nat, 'h', 'u', 'l'));
    assert(pod2_name_index(m[15].0) == 15);
    assert(name_key(m[16].0) == (14nat, 'a', 'o', 'r'));
    assert(pod2_name_index(m[16].0) == 16);
    assert(name_key(m[17].0) == (10nat, 'a', 'c', 'c'));
    assert(pod2_name_index(m[17].0) == 17);
    assert(name_key(m[18].0) == (9nat, 'a', 'v', 'e'));
    assert(pod2_name_index(m[18].0) == 18);
    assert(name_key(m[19].0) == (15nat, 'a', 'r', 't'));
    assert(pod2_name_index(m[19].0) == 19);
    assert(name_key(m[20].0) == (12nat, 'a', 'r', '_'));
    assert(pod2_name_index(m[20].0) == 20);
    assert(name_key(m[21].0) == (9nat, 'o', 'v', 'e'));
    assert(pod2_name_index(m[21].0) == 21);
    assert(name_key(m[22].0) == (11nat, 'o', 'm', 'i'));
    assert(pod2_name_index(m[22].0) == 22);
    assert(name_key(m[23].0) == (18nat, 'o', 'i', 'a'));
    assert(pod2_name_index(m[23].0) == 23);
    assert(name_key(m[24].0) == (10nat, 'e', 'i', 'i'));
    assert(pod2_name_index(m[24].0) == 24);
    assert(name_key(m[25].0) == (15nat, 'e', 'i', 'i'));
    assert(pod2_name_index(m[25].0) == 25);
    assert(name_key(m[26].0) == (14nat, 'e', 'a', 'e'));
    assert(pod2_name_index(m[26].0) == 26);
    assert(name_key(m[27].0) == (11nat, 'e', 'v', 'e'));
    assert(pod2_name_index(m[27].0) == 27);
    assert(name_key(m[28].0) == (11nat, 'e', 'y', 't'));
    assert(pod2_name_index(m[28].0) == 28);
    assert(name_key(m[29].0) == (12nat, 'e', 'c', 'd'));
    assert(pod2_name_index(m[29].0) == 29);
    assert(name_key(m[30].0) == (11nat, 'e', 'o', 't'));
    assert(pod2_name_index(m[30].0) == 30);
    assert(name_key(m[31].0) == (16nat, 'e', 'i', 'd'));
    assert(pod2_name_index(m[31].0) == 31);
    assert(name_key(m[32].0) == (14nat, 'e', 'i', 'd'));
    assert(pod2_name_index(m[32].0) == 32);
    assert(name_key(m[33].0) == (12nat, 'e', 'v', 'l'));
    assert(pod2_name_index(m[33].0) == 33);
    assert(name_key(m[34].0) == (10nat, 'a', 'e', 'e'));
    assert(pod2_name_index(m[34].0) == 34);
    assert(name_key(m[35].0) == (3nat, 'i', 'a', ' '));
    assert(pod2_name_index(m[35].0) == 35);
    assert(name_key(m[36].0) == (13nat, 'f', 'e', 's'));
    assert(pod2_name_index(m[36].0) == 36);
    assert(name_key(m[37].0) == (12nat, 'f', 'e', 't'));
    assert(pod2_name_index(m[37].0) == 37);
    assert(name_key(m[38].0) == (17nat, 'o', 'i', 's'));
    assert(pod2_name_index(m[38].0) == 38);
    assert(name_key(m[39].0) == (17nat, 'o', 't', 's'));
    assert(pod2_name_index(m[39].0) == 39);
    assert(name_key(m[40].0) == (20nat, 'h', 'e', 'f'));
    assert(pod2_name_index(m[40].0) == 40);
    assert(name_key(m[41].0) == (20nat, 'h', 'p', 'f'));
    assert(pod2_name_index(m[41].0) == 41);
    assert(name_key(m[42].0) == (23nat, 'h', 'a', 'f'));
    assert(pod2_name_index(m[42].0) == 42);
    assert(name_key(m[43].0) == (24nat, 'h', 'l', 'f'));
    assert(pod2_name_index(m[43].0) == 43);
    assert(name_key(m[44].0) == (12nat, 'o', 'e', 's'));
    assert(pod2_name_index(m[44].0) == 44);
    assert(name_key(m[45].0) == (17nat, 'o', 'e', 'f'));
    assert(pod2_name_index(m[45].0) == 45);
    assert(name_key(m[46].0) == (17nat, 'o', 'e', 's'));
    assert(pod2_name_index(m[46].0) == 46);
    assert(name_key(m[47].0) == (10nat, 'r', 'e', 'e'));
    assert(pod2_name_index(m[47].0) == 47);
    assert(name_key(m[48].0) == (10nat, 'r', 'p', 'p'));
    assert(pod2_name_index(m[48].0) == 48);
    assert forall|i: int| 0 <= i < m.len() implies pod2_name_index(#[trigger] m[i].0) == i by {
        if i == 0 {
        } else if i == 1 {
        } else if i == 2 {
        } else if i == 3 {
        } else if i == 4 {
        } else if i == 5 {
        } else if i == 6 {
        } else if i == 7 {
        } else if i == 8 {
        } else if i == 9 {
        } else if i == 10 {
        } else if i == 11 {
        } else if i == 12 {
        } else if i == 13 {
        } else if i == 14 {
        } else if i == 15 {
        } else if i == 16 {
        } else if i == 17 {
        } else if i == 18 {
        } else if i == 19 {
        } else if i == 20 {
        } else if i == 21 {
        } else if i == 22 {
        } else if i == 23 {
        } else if i == 24 {
        } else if i == 25 {
        } else if i == 26 {
        } else if i == 27 {
        } else if i == 28 {
        } else if i == 29 {
        } else if i == 30 {
        } else if i == 31 {
        } else if i == 32 {
        } else if i == 33 {
        } else if i == 34 {
        } else if i == 35 {
        } else if i == 36 {
        } else if i == 37 {
        } else if i == 38 {
        } else if i == 39 {
        } else if i == 40 {
        } else if i == 41 {
        } else if i == 42 {
        } else if i == 43 {
        } else if i == 44 {
        } else if i == 45 {
        } else if i == 46 {
        } else if i == 47 {
        } else if i == 48 {
        }
    }
}

/// Controls laid out as the POD 2.0 map have distinct names, and share
/// only CC 7.
proof fn lemma_pod2_map_facts(v: Seq<(String, Control)>)
    requires
        v.map_values(|e: (String, Control)| (e.0@, e.1)) == pod2_control_map(),
    ensures
        names_unique(v),
        ccs_unique_except(v, 7),
{
    let m = pod2_control_map();
    lemma_pod2_names_unique();
    assert(v.len() == m.len());
    assert forall|i: int| 0 <= i < v.len() implies (#[trigger] v[i]).0@ == m[i].0 && v[i].1
        == m[i].1 by {
        assert(v.map_values(|e: (String, Control)| (e.0@, e.1))[i] == m[i]);
    }
    assert forall|i: int, j: int| 0 <= i < j < v.len() implies (#[trigger] v[i]).0@ != (
    #[trigger] v[j]).0@ by {
        assert(m[i].0 != m[j].0);
    }
    assert forall|i: int, j: int|
        0 <= i < j < v.len() && (#[trigger] v[i]).1.cc_spec() == (#[trigger] v[j]).1.cc_spec()
            implies v[i].1.cc_spec() == Some(7u8) by {
        assert(m[i].1 == v[i].1 && m[j].1 == v[j].1);
    }
}

#[verifier::rlimit(100)]
fn pod2_controls() -> (r: Vec<(String, Control)>)
    ensures
        r@.len() == 49,
        forall|i: int| 0 <= i < r@.len() ==> (#[trigger] r@[i]).1.wf(),
        r@.map_values(|e: (String, Control)| (e.0@, e.1)) == pod2_control_map(),
{
    let mut v: Vec<(String, Control)> = Vec::new();
    v.push(switch("distortion_enable", 25));
    v.push(switch("drive_enable", 26));
    v.push(switch("eq_enable", 27));
    v.push(switch("delay_enable", 28));
    v.push(switch("effect_enable", 50));
    v.push(switch("reverb_enable", 36));
    v.push(switch("noise_gate_enable", 22));
    v.push(switch("bright_switch_enable", 73));
    v.push(select("amp_select", 12));
    v.push(range("drive", 13, 0, 63));
    v.push(range("drive2", 20, 0, 63));
    v.push(range("bass", 14, 0, 63));
    v.push(range("mid", 15, 0, 63));
    v.push(range("treble", 16, 0, 63));
    v.push(range("presence", 21, 0, 63));
    v.push(range("chan_volume", 17, 0, 63));
    v.push(range("gate_threshold", 23, 0, 96));
    v.push(range("gate_decay", 24, 0, 63));
    v.push(range("wah_level", 4, 0, 127));
    v.push(range("wah_bottom_freq", 44, 0, 127));
    v.push(range("wah_top_freq", 45, 0, 127));
    v.push(range("vol_level", 7, 0, 127));
    v.push(range("vol_minimum", 7, 0, 127));
    v.push(switch("vol_pedal_position", 47));
    v.push(range("delay_time", 30, 0, 127));
    v.push(range("delay_time:fine", 62, 0, 127));
    v.push(range("delay_feedback", 32, 0, 63));
    v.push(range("delay_level", 34, 0, 63));
    v.push(switch("reverb_type", 37));
    v.push(range("reverb_decay", 38, 0, 63));
    v.push(range("reverb_tone", 39, 0, 63));
    v.push(range("reverb_diffusion", 40, 0, 63));
    v.push(range("reverb_density", 41, 0, 63));
    v.push(range("reverb_level", 18, 0, 63));
    v.push(select("cab_select", 71));
    v.push(range("air", 72, 0, 63));
    v.push(range("effect_select", 19, 0, 15));
    v.push(range("effect_tweak", 1, 0, 63));
    v.push(range("volume_swell_time", 49, 0, 63));
    v.push(range("compression_ratio", 42, 0, 6));
    v.push(range("chorus_flanger_speed", 51, 0, 127));
    v.push(range("chorus_flanger_depth", 52, 0, 127));
    v.push(range("chorus_flanger_feedback", 53, 0, 127));
    v.push(range("chorus_flanger_pre_delay", 54, 0, 127));
    v.push(switch("rotary_speed", 55));
    v.push(range("rotary_fast_speed", 56, 0, 127));
    v.push(range("rotary_slow_speed", 57, 0, 127));
    v.push(range("trem_speed", 58, 0, 127));
    v.push(range("trem_depth", 59, 0, 127));
    assert(v@.map_values(|e: (String, Control)| (e.0@, e.1)) =~= pod2_control_map());
    v
}

/// The POD 2.0 descriptor.
pub fn pod2_config() -> (c: Config)
    ensures
        c.wf(),
        c.family == 0x0000,
        c.member == 0x0300,
        c.program_size == POD2_PROGRAM_SIZE,
        c.all_programs_size == POD2_PROGRAM_SIZE * POD2_PROGRAMS,
        c.pod_id == 0x01,
        c.amp_models@.len() == 28,
        c.cab_models@.len() == 16,
        c.effects@.len() == 9,
        c.controls@.len() == 49,
        c.controls@.map_values(|e: (String, Control)| (e.0@, e.1)) == pod2_control_map(),
        names_unique(c.controls@),
        ccs_unique_except(c.controls@, 7),
{
    let controls = pod2_controls();
    proof {
        lemma_pod2_map_facts(controls@);
    }
    Config {
        name: String::from_str("POD 2.0"),
        family: 0x0000,
        member: 0x0300,
        program_size: POD2_PROGRAM_SIZE,
        all_programs_size: POD2_PROGRAM_SIZE * POD2_PROGRAMS,
        pod_id: 0x01,
        amp_models: pod2_amps(),
        cab_models: pod2_cabs(),
        effects: pod2_effects(),
        controls,
    }
}

/// Every descriptor this controller knows.
pub fn configs() -> (r: Vec<Config>)
    ensures
        r@.len() == 1,
        forall|i: int| 0 <= i < r@.len() ==> (#[trigger] r@[i]).wf(),
        r@[0].family == 0x0000 && r@[0].member == 0x0300,
{
    let mut v: Vec<Config> = Vec::new();
    v.push(pod2_config());
    v
}

/// The first descriptor with identity `(family, member)`.
pub fn find_by_identity(catalog: &Vec<Config>, family: u16, member: u16) -> (r: Option<&Config>)
    ensures
        match r {
            Some(c) => exists|i: int|
                0 <= i < catalog@.len() && *c == #[trigger] catalog@[i] && c.family == family
                    && c.member == member && forall|j: int|
                    0 <= j < i ==> !((#[trigger] catalog@[j]).family == family && catalog@[j].member
                        == member),
            None => forall|i: int|
                0 <= i < catalog@.len() ==> !((#[trigger] catalog@[i]).family == family
                    && catalog@[i].member == member),
        },
{
    let n = catalog.len();
    let mut i: usize = 0;
    while i < n
        invariant
            i <= n,
            n == catalog@.len(),
            forall|j: int|
                0 <= j < i ==> !((#[trigger] catalog@[j]).family == family && catalog@[j].member
                    == member),
        decreases n - i,
    {
        if catalog[i].family == family && catalog[i].member == member {
            return Some(&catalog[i]);
        }
        i = i + 1;
    }
    None
}

/// The first descriptor called `name`.
pub fn find_by_name<'a>(catalog: &'a Vec<Config>, name: &str) -> (r: Option<&'a Config>)
    ensures
        match r {
            Some(c) => exists|i: int|
                0 <= i < catalog@.len() && *c == #[trigger] catalog@[i] && c.name@ == name@
                    && forall|j: int| 0 <= j < i ==> (#[trigger] catalog@[j]).name@ != name@,
            None => forall|i: int| 0 <= i < catalog@.len() ==> (#[trigger] catalog@[i]).name@ != name@,
        },
{
    let key = String::from_str(name);
    let n = catalog.len();
    let mut i: usize = 0;
    while i < n
        invariant
            i <= n,
            n == catalog@.len(),
            key@ == name@,
            forall|j: int| 0 <= j < i ==> (#[trigger] catalog@[j]).name@ != name@,
        decreases n - i,
    {
        if catalog[i].name == key {
            return Some(&catalog[i]);
        }
        i = i + 1;
    }
    None
}

} // verus!

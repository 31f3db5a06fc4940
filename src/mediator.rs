use vstd::prelude::*;
use crate::model::{Config, Control, Effect, GetCC, RangeControl, SwitchControl};
use crate::store::{Origin, Signal, Store, StoreEvent, StoreModel, lemma_index_of_cc, lemma_index_of_name};
use crate::midi::{MessageModel, MidiMessage};

verus! {

/// Channel of the Control Change messages sent to the device.
pub const CC_CHANNEL: u8 = 1;

/// Version string answered to a device inquiry, as ASCII bytes.
pub open spec fn inquiry_version() -> Seq<u8> {
    seq![0x30u8, 0x32u8, 0x32u8, 0x33u8]
}

/// The 7-bit wire value of stored value `v`: `v * scale`, at most 127.
pub open spec fn wire_value_spec(c: Control, v: u16) -> u8 {
    let w = v as int * c.scale_spec() as int;
    if w > 127 {
        127u8
    } else {
        w as u8
    }
}

/// The stored value for wire value `w`: `w / scale`, truncated.
pub open spec fn store_value_spec(c: Control, w: u8) -> u16 {
    (w as int / c.scale_spec() as int) as u16
}

/// The Control Change that announces a store event to the device, if any:
/// none for an event that came from MIDI or for an unknown control.
pub open spec fn outbound_spec(s: StoreModel, name: Seq<char>, origin: Origin) -> Option<MessageModel> {
    if origin == Origin::Midi {
        None
    } else {
        match s.get_config(name) {
            Some(c) => match c.cc_spec() {
                Some(cc) => Some(
                    MessageModel::ControlChange {
                        channel: CC_CHANNEL,
                        control: cc,
                        value: wire_value_spec(c, s.get(name).unwrap()),
                    },
                ),
                None => None,
            },
            None => None,
        }
    }
}

/// The store after a Control Change arrives from the device: the first
/// control on that CC takes the scaled-down value, tagged as MIDI.
pub open spec fn receive_cc_spec(s: StoreModel, control: u8, value: u8) -> StoreModel {
    match s.get_config_by_cc(control) {
        Some((name, c)) => s.set(name, store_value_spec(c, value), Origin::Midi),
        None => s,
    }
}

pub fn wire_value(c: &Control, v: u16) -> (r: u8)
    requires
        c.wf(),
    ensures
        r == wire_value_spec(*c, v),
{
    let scale = c.scale();
    assert(v as u32 * scale as u32 <= 65535 * 127) by (nonlinear_arith)
        requires
            scale <= 127,
            v <= 65535,
    ;
    let w: u32 = v as u32 * scale as u32;
    if w > 127 {
        127
    } else {
        w as u8
    }
}

pub fn store_value(c: &Control, w: u8) -> (r: u16)
    requires
        c.wf(),
    ensures
        r == store_value_spec(*c, w),
{
    let scale = c.scale();
    w as u16 / scale
}

/// What the outbound task sends for a store event.
pub fn outbound_message(store: &Store, event: &StoreEvent) -> (r: Option<MidiMessage>)
    requires
        store.wf(),
    ensures
        match r {
            Some(m) => outbound_spec(store@, event.name@, event.origin) == Some(m@),
            None => outbound_spec(store@, event.name@, event.origin) is None,
        },
{
    if event.origin == Origin::Midi {
        return None;
    }
    match store.get_config(event.name.as_str()) {
        None => None,
        Some(c) => match c.get_cc() {
            None => None,
            Some(cc) => {
                proof {
                    lemma_index_of_name(store@.controls, event.name@);
                    store.lemma_wf_controls();
                }
                let v = store.get(event.name.as_str()).unwrap();
                Some(MidiMessage::ControlChange { channel: CC_CHANNEL, control: cc, value: wire_value(&c, v) })
            },
        },
    }
}

/// Applies a Control Change from the device to the store. Returns whether
/// a control is driven by that CC.
pub fn receive_cc(store: &mut Store, control: u8, value: u8) -> (found: bool)
    requires
        old(store).wf(),
    ensures
        final(store).wf(),
        final(store).spec_config() == old(store).spec_config(),
        final(store)@ == receive_cc_spec(old(store)@, control, value),
        found == old(store)@.get_config_by_cc(control) is Some,
{
    match store.get_config_by_cc(control) {
        Some((name, c)) => {
            proof {
                lemma_index_of_cc(store@.controls, control);
                store.lemma_wf_controls();
            }
            let v = store_value(&c, value);
            store.set(name.as_str(), v, Origin::Midi);
            true
        },
        None => false,
    }
}

/// Why an inbound message changed nothing and needs no reply.
#[derive(Clone, Copy, Debug, PartialEq, Eq, Structural)]
pub enum InboundError {
    /// No control is driven by this CC.
    UnknownControl { control: u8 },
    /// A program dump whose payload is not one program long.
    BadLength { expected: usize, got: usize },
    /// A message the controller does not act on.
    Unhandled,
}

pub open spec fn reply_view(r: Result<Option<MidiMessage>, InboundError>) -> Result<
    Option<MessageModel>,
    InboundError,
> {
    match r {
        Ok(Some(m)) => Ok(Some(m@)),
        Ok(None) => Ok(None),
        Err(e) => Err(e),
    }
}

/// The store after an inbound message, and the reply to queue for the
/// device (or why there is none).
pub open spec fn inbound_spec(s: StoreModel, cfg: Config, m: MessageModel) -> (
    StoreModel,
    Result<Option<MessageModel>, InboundError>,
) {
    match m {
        MessageModel::ControlChange { channel, control, value } => {
            if s.get_config_by_cc(control) is Some {
                (receive_cc_spec(s, control, value), Ok(None))
            } else {
                (s, Err(InboundError::UnknownControl { control }))
            }
        },
        MessageModel::ProgramEditBufferDumpRequest => (
            s,
            Ok(Some(MessageModel::ProgramEditBufferDump { ver: 0, data: s.program })),
        ),
        MessageModel::ProgramPatchDumpRequest { patch } => (
            s,
            Ok(Some(MessageModel::ProgramPatchDump { patch, ver: 0, data: s.program })),
        ),
        MessageModel::ProgramEditBufferDump { ver, data } => {
            if data.len() == cfg.program_size {
                (StoreModel { program: data, ..s }, Ok(None))
            } else {
                (
                    s,
                    Err(
                        InboundError::BadLength {
                            expected: cfg.program_size,
                            got: data.len() as usize,
                        },
                    ),
                )
            }
        },
        MessageModel::UniversalDeviceInquiry { channel } => (
            s,
            Ok(
                Some(
                    MessageModel::UniversalDeviceInquiryResponse {
                        channel,
                        family: cfg.family,
                        member: cfg.member,
                        ver: inquiry_version(),
                    },
                ),
            ),
        ),
        _ => (s, Err(InboundError::Unhandled)),
    }
}

/// What the inbound task does with one parsed message: update the store,
/// and return the reply to send back, if any.
///
/// Program dumps are handled as opaque bytes: the patch format (which byte
/// belongs to which control) is not modelled, so loading a dump replaces
/// the edit buffer without changing any control value or raising events,
/// and a dump request answers with the edit buffer as last loaded, not
/// with the current control values.
pub fn handle_message(store: &mut Store, msg: MidiMessage) -> (r: Result<Option<MidiMessage>, InboundError>)
    requires
        old(store).wf(),
    ensures
        final(store).wf(),
        final(store).spec_config() == old(store).spec_config(),
        (final(store)@, reply_view(r)) == inbound_spec(old(store)@, old(store).spec_config(), msg@),
{
    match msg {
        MidiMessage::ControlChange { channel, control, value } => {
            if receive_cc(store, control, value) {
                Ok(None)
            } else {
                Err(InboundError::UnknownControl { control })
            }
        },
        MidiMessage::ProgramEditBufferDumpRequest => {
            Ok(Some(MidiMessage::ProgramEditBufferDump { ver: 0, data: store.program() }))
        },
        MidiMessage::ProgramPatchDumpRequest { patch } => {
            Ok(Some(MidiMessage::ProgramPatchDump { patch, ver: 0, data: store.program() }))
        },
        MidiMessage::ProgramEditBufferDump { ver, data } => {
            let expected = store.config().program_size;
            if data.len() == expected {
                store.load_program(data);
                Ok(None)
            } else {
                Err(InboundError::BadLength { expected, got: data.len() })
            }
        },
        MidiMessage::UniversalDeviceInquiry { channel } => {
            let cfg = store.config();
            let mut ver: Vec<u8> = Vec::new();
            ver.push(0x30);
            ver.push(0x32);
            ver.push(0x32);
            ver.push(0x33);
            assert(ver@ =~= inquiry_version());
            Ok(
                Some(
                    MidiMessage::UniversalDeviceInquiryResponse {
                        channel,
                        family: cfg.family,
                        member: cfg.member,
                        ver,
                    },
                ),
            )
        },
        _ => Err(InboundError::Unhandled),
    }
}

/// What a virtual-control rule does when it fires.
#[derive(Clone, Debug)]
pub enum RuleAction {
    /// The trigger is a 14-bit control: force-write its upper seven bits
    /// to `msb` and its lower seven bits to `lsb`.
    Split { msb: String, lsb: String },
    /// The trigger is the MSB half of `control`: recombine it with the
    /// LSB already held by `control`.
    JoinMsb { control: String },
    /// The trigger is the LSB half of `control`: recombine it with the
    /// MSB already held by `control`.
    JoinLsb { control: String },
    /// The trigger selects an effect: when `table` fixes the delay for
    /// that effect, write it to the `delay` switch.
    DelayFollowsEffect { delay: String, table: Vec<Option<bool>> },
    /// The trigger is the delay switch: when it is turned on while the
    /// effect selected in `effect` rules out the delay, select no effect.
    EffectFollowsDelay { effect: String, table: Vec<Option<bool>> },
    /// The trigger is a packed parameter: write its wire value, read back
    /// through `field`'s scaling, to `field`, tagged as MIDI. A field's
    /// conversion from a wire value is the same CC scaling
    /// (`store_value`) that an inbound CC for it would use.
    Unpack { field: String },
    /// The trigger is a sub-field of `packed`: write the field's wire value
    /// to `packed`. A field's conversion to a wire value is the same CC
    /// scaling (`wire_value`) that an outbound CC for it would use.
    Pack { packed: String },
}

/// "On a write to `trigger` (from `from`, when given), run `action`."
#[derive(Clone, Debug)]
pub struct Rule {
    pub trigger: String,
    pub from: Option<Origin>,
    pub action: RuleAction,
}

pub enum ActionModel {
    Split { msb: Seq<char>, lsb: Seq<char> },
    JoinMsb { control: Seq<char> },
    JoinLsb { control: Seq<char> },
    DelayFollowsEffect { delay: Seq<char>, table: Seq<Option<bool>> },
    EffectFollowsDelay { effect: Seq<char>, table: Seq<Option<bool>> },
    Unpack { field: Seq<char> },
    Pack { packed: Seq<char> },
}

pub struct RuleModel {
    pub trigger: Seq<char>,
    pub from: Option<Origin>,
    pub action: ActionModel,
}

impl View for Rule {
    type V = RuleModel;

    open spec fn view(&self) -> RuleModel {
        RuleModel {
            trigger: self.trigger@,
            from: self.from,
            action: match &self.action {
                RuleAction::Split { msb, lsb } => ActionModel::Split { msb: msb@, lsb: lsb@ },
                RuleAction::JoinMsb { control } => ActionModel::JoinMsb { control: control@ },
                RuleAction::JoinLsb { control } => ActionModel::JoinLsb { control: control@ },
                RuleAction::DelayFollowsEffect { delay, table } => ActionModel::DelayFollowsEffect {
                    delay: delay@,
                    table: table@,
                },
                RuleAction::EffectFollowsDelay { effect, table } => ActionModel::EffectFollowsDelay {
                    effect: effect@,
                    table: table@,
                },
                RuleAction::Unpack { field } => ActionModel::Unpack { field: field@ },
                RuleAction::Pack { packed } => ActionModel::Pack { packed: packed@ },
            },
        }
    }
}

pub open spec fn msb_of(v: u16) -> u16 {
    (v >> 7u16) & 0x7fu16
}

pub open spec fn lsb_of(v: u16) -> u16 {
    v & 0x7fu16
}

/// Splits the value of `control` into its two 7-bit halves, both written
/// with `Signal::Force` so that both are always announced.
pub open spec fn split_spec(
    s: StoreModel,
    control: Seq<char>,
    msb: Seq<char>,
    lsb: Seq<char>,
    origin: Origin,
) -> StoreModel {
    match s.get(control) {
        Some(v) => s.set_full(msb, msb_of(v), origin, Signal::Force).set_full(
            lsb,
            lsb_of(v),
            origin,
            Signal::Force,
        ),
        None => s,
    }
}

/// Writes to `control` the value `half` recombined with the other half
/// that `control` already holds.
pub open spec fn join_spec(
    s: StoreModel,
    half: Seq<char>,
    control: Seq<char>,
    upper: bool,
    origin: Origin,
) -> StoreModel {
    match (s.get(half), s.get(control)) {
        (Some(h), Some(k)) => s.set(
            control,
            if upper {
                ((h & 0x7fu16) << 7u16) | (k & 0x7fu16)
            } else {
                (k & 0x3f80u16) | (h & 0x7fu16)
            },
            origin,
        ),
        _ => s,
    }
}

/// Selecting effect `e` whose table entry is `Some(d)` sets the delay
/// switch to `d`; other effects leave it alone.
pub open spec fn delay_follows_spec(
    s: StoreModel,
    effect: Seq<char>,
    delay: Seq<char>,
    table: Seq<Option<bool>>,
    origin: Origin,
) -> StoreModel {
    match s.get(effect) {
        Some(e) => if e < table.len() && table[e as int] is Some {
            s.set(delay, if table[e as int].unwrap() { 1 } else { 0 }, origin)
        } else {
            s
        },
        None => s,
    }
}

/// Turning the delay switch on while the selected effect's table entry is
/// `Some(false)` selects effect 0.
pub open spec fn effect_follows_spec(
    s: StoreModel,
    delay: Seq<char>,
    effect: Seq<char>,
    table: Seq<Option<bool>>,
    origin: Origin,
) -> StoreModel {
    match (s.get(delay), s.get(effect)) {
        (Some(d), Some(e)) => if d != 0 && e < table.len() && table[e as int] == Some(false) {
            s.set(effect, 0, origin)
        } else {
            s
        },
        _ => s,
    }
}

/// A packed parameter's value as a wire byte (its low eight bits),
/// stored into `field` the way a CC for `field` would be, tagged MIDI.
pub open spec fn unpack_spec(s: StoreModel, packed: Seq<char>, field: Seq<char>) -> StoreModel {
    match (s.get(packed), s.get_config(field)) {
        (Some(v), Some(c)) => s.set(field, store_value_spec(c, (v % 256) as u8), Origin::Midi),
        _ => s,
    }
}

/// A sub-field's wire value written to the packed parameter.
pub open spec fn pack_spec(s: StoreModel, field: Seq<char>, packed: Seq<char>, origin: Origin) -> StoreModel {
    match (s.get(field), s.get_config(field)) {
        (Some(v), Some(c)) => s.set(packed, wire_value_spec(c, v) as u16, origin),
        _ => s,
    }
}

pub open spec fn fires(rule: RuleModel, name: Seq<char>, origin: Origin) -> bool {
    rule.trigger == name && (rule.from is None || rule.from == Some(origin))
}

pub open spec fn action_spec(s: StoreModel, a: ActionModel, name: Seq<char>, origin: Origin) -> StoreModel {
    match a {
        ActionModel::Split { msb, lsb } => split_spec(s, name, msb, lsb, origin),
        ActionModel::JoinMsb { control } => join_spec(s, name, control, true, origin),
        ActionModel::JoinLsb { control } => join_spec(s, name, control, false, origin),
        ActionModel::DelayFollowsEffect { delay, table } => delay_follows_spec(s, name, delay, table, origin),
        ActionModel::EffectFollowsDelay { effect, table } => effect_follows_spec(s, name, effect, table, origin),
        ActionModel::Unpack { field } => unpack_spec(s, name, field),
        ActionModel::Pack { packed } => pack_spec(s, name, packed, origin),
    }
}

/// The store after the rules that fire on event `(name, origin)` ran, in
/// order.
pub open spec fn rules_spec(s: StoreModel, rules: Seq<RuleModel>, name: Seq<char>, origin: Origin) -> StoreModel
    decreases rules.len(),
{
    if rules.len() == 0 {
        s
    } else {
        let s1 = rules_spec(s, rules.drop_last(), name, origin);
        if fires(rules.last(), name, origin) {
            action_spec(s1, rules.last().action, name, origin)
        } else {
            s1
        }
    }
}

fn split(store: &mut Store, control: &str, msb: &str, lsb: &str, origin: Origin)
    requires
        old(store).wf(),
    ensures
        final(store).wf(),
        final(store).spec_config() == old(store).spec_config(),
        final(store)@ == split_spec(old(store)@, control@, msb@, lsb@, origin),
{
    match store.get(control) {
        Some(v) => {
            store.set_full(msb, (v >> 7u16) & 0x7fu16, origin, Signal::Force);
            store.set_full(lsb, v & 0x7fu16, origin, Signal::Force);
        },
        None => {},
    }
}

fn join(store: &mut Store, half: &str, control: &str, upper: bool, origin: Origin)
    requires
        old(store).wf(),
    ensures
        final(store).wf(),
        final(store).spec_config() == old(store).spec_config(),
        final(store)@ == join_spec(old(store)@, half@, control@, upper, origin),
{
    match (store.get(half), store.get(control)) {
        (Some(h), Some(k)) => {
            let v = if upper {
                ((h & 0x7fu16) << 7u16) | (k & 0x7fu16)
            } else {
                (k & 0x3f80u16) | (h & 0x7fu16)
            };
            store.set(control, v, origin);
        },
        _ => {},
    }
}

fn delay_follows(store: &mut Store, effect: &str, delay: &str, table: &Vec<Option<bool>>, origin: Origin)
    requires
        old(store).wf(),
    ensures
        final(store).wf(),
        final(store).spec_config() == old(store).spec_config(),
        final(store)@ == delay_follows_spec(old(store)@, effect@, delay@, table@, origin),
{
    if let Some(e) = store.get(effect) {
        if (e as usize) < table.len() {
            if let Some(d) = table[e as usize] {
                store.set(delay, if d { 1 } else { 0 }, origin);
            }
        }
    }
}

fn effect_follows(store: &mut Store, delay: &str, effect: &str, table: &Vec<Option<bool>>, origin: Origin)
    requires
        old(store).wf(),
    ensures
        final(store).wf(),
        final(store).spec_config() == old(store).spec_config(),
        final(store)@ == effect_follows_spec(old(store)@, delay@, effect@, table@, origin),
{
    match (store.get(delay), store.get(effect)) {
        (Some(d), Some(e)) => {
            if d != 0 && (e as usize) < table.len() && table[e as usize] == Some(false) {
                store.set(effect, 0, origin);
            }
        },
        _ => {},
    }
}

fn unpack(store: &mut Store, packed: &str, field: &str)
    requires
        old(store).wf(),
    ensures
        final(store).wf(),
        final(store).spec_config() == old(store).spec_config(),
        final(store)@ == unpack_spec(old(store)@, packed@, field@),
{
    match (store.get(packed), store.get_config(field)) {
        (Some(v), Some(c)) => {
            proof {
                lemma_index_of_name(store@.controls, field@);
                store.lemma_wf_controls();
            }
            let w = store_value(&c, (v % 256) as u8);
            store.set(field, w, Origin::Midi);
        },
        _ => {},
    }
}

fn pack(store: &mut Store, field: &str, packed: &str, origin: Origin)
    requires
        old(store).wf(),
    ensures
        final(store).wf(),
        final(store).spec_config() == old(store).spec_config(),
        final(store)@ == pack_spec(old(store)@, field@, packed@, origin),
{
    match (store.get(field), store.get_config(field)) {
        (Some(v), Some(c)) => {
            proof {
                lemma_index_of_name(store@.controls, field@);
                store.lemma_wf_controls();
            }
            let w = wire_value(&c, v);
            store.set(packed, w as u16, origin);
        },
        _ => {},
    }
}

/// Runs every rule that fires on `event`, in order.
pub fn apply_rules(store: &mut Store, rules: &Vec<Rule>, event: &StoreEvent)
    requires
        old(store).wf(),
    ensures
        final(store).wf(),
        final(store).spec_config() == old(store).spec_config(),
        final(store)@ == rules_spec(
            old(store)@,
            rules@.map_values(|r: Rule| r@),
            event.name@,
            event.origin,
        ),
{
    let ghost rs = rules@.map_values(|r: Rule| r@);
    let ghost start = store@;
    let n = rules.len();
    let mut i: usize = 0;
    while i < n
        invariant
            i <= n,
            n == rules@.len(),
            rs == rules@.map_values(|r: Rule| r@),
            store.wf(),
            store.spec_config() == old(store).spec_config(),
            start == old(store)@,
            store@ == rules_spec(start, rs.subrange(0, i as int), event.name@, event.origin),
        decreases n - i,
    {
        let rule = &rules[i];
        assert(rs.subrange(0, (i + 1) as int).drop_last() =~= rs.subrange(0, i as int));
        assert(rs.subrange(0, (i + 1) as int).last() == rule@);
        let origin_ok = match rule.from {
            None => true,
            Some(o) => o == event.origin,
        };
        if rule.trigger == event.name && origin_ok {
            match &rule.action {
                RuleAction::Split { msb, lsb } => {
                    split(store, event.name.as_str(), msb.as_str(), lsb.as_str(), event.origin);
                },
                RuleAction::JoinMsb { control } => {
                    join(store, event.name.as_str(), control.as_str(), true, event.origin);
                },
                RuleAction::JoinLsb { control } => {
                    join(store, event.name.as_str(), control.as_str(), false, event.origin);
                },
                RuleAction::DelayFollowsEffect { delay, table } => {
                    delay_follows(store, event.name.as_str(), delay.as_str(), table, event.origin);
                },
                RuleAction::EffectFollowsDelay { effect, table } => {
                    effect_follows(store, event.name.as_str(), effect.as_str(), table, event.origin);
                },
                RuleAction::Unpack { field } => {
                    unpack(store, event.name.as_str(), field.as_str());
                },
                RuleAction::Pack { packed } => {
                    pack(store, event.name.as_str(), packed.as_str(), event.origin);
                },
            }
        }
        i = i + 1;
    }
    assert(rs.subrange(0, n as int) =~= rs);
}

/// The three rules of a 14-bit control `control` carried by the CC pair
/// `msb` / `lsb`.
pub open spec fn split_rules_model(control: Seq<char>, msb: Seq<char>, lsb: Seq<char>) -> Seq<RuleModel> {
    seq![
        RuleModel { trigger: control, from: None, action: ActionModel::Split { msb, lsb } },
        RuleModel { trigger: msb, from: Some(Origin::Midi), action: ActionModel::JoinMsb { control } },
        RuleModel { trigger: lsb, from: Some(Origin::Midi), action: ActionModel::JoinLsb { control } },
    ]
}

/// Rules for a 14-bit control: a write to `control` from any origin
/// force-writes both halves; a half that arrives from MIDI is recombined
/// into `control`.
pub fn split_14bit_rules(control: &str, msb: &str, lsb: &str) -> (r: Vec<Rule>)
    ensures
        r@.map_values(|x: Rule| x@) == split_rules_model(control@, msb@, lsb@),
{
    let mut r: Vec<Rule> = Vec::new();
    r.push(
        Rule {
            trigger: String::from_str(control),
            from: None,
            action: RuleAction::Split { msb: String::from_str(msb), lsb: String::from_str(lsb) },
        },
    );
    r.push(
        Rule {
            trigger: String::from_str(msb),
            from: Some(Origin::Midi),
            action: RuleAction::JoinMsb { control: String::from_str(control) },
        },
    );
    r.push(
        Rule {
            trigger: String::from_str(lsb),
            from: Some(Origin::Midi),
            action: RuleAction::JoinLsb { control: String::from_str(control) },
        },
    );
    assert(r@.map_values(|x: Rule| x@) =~= split_rules_model(control@, msb@, lsb@));
    r
}

/// A switch set from the GUI goes out as CC value 0 or 64 exactly when it
/// is 0 or 1, and that CC coming back restores the value.
pub proof fn law_switch_round_trip(s: StoreModel, name: Seq<char>, cc: u8, v: u16)
    requires
        s.wf(),
        s.get_config(name) == Some(Control::SwitchControl(SwitchControl { cc })),
        index_of_cc_is(s, cc, name),
    ensures
        outbound_spec(s.set(name, v, Origin::Gui), name, Origin::Gui) == Some(
            MessageModel::ControlChange {
                channel: CC_CHANNEL,
                control: cc,
                value: wire_value_spec(Control::SwitchControl(SwitchControl { cc }), v),
            },
        ),
        (wire_value_spec(Control::SwitchControl(SwitchControl { cc }), v) == 0
            || wire_value_spec(Control::SwitchControl(SwitchControl { cc }), v) == 64) <==> v <= 1,
        v <= 1 ==> receive_cc_spec(
            s.set(name, v, Origin::Gui),
            cc,
            wire_value_spec(Control::SwitchControl(SwitchControl { cc }), v),
        ).get(name) == Some(v),
{
    lemma_index_of_name(s.controls, name);
    crate::store::law_set_then_get(s, name, v, Origin::Gui, Signal::Change);
    let s1 = s.set(name, v, Origin::Gui);
    lemma_index_of_name(s1.controls, name);
    let sw = Control::SwitchControl(SwitchControl { cc });
    assert(sw.scale_spec() == 64);
    let w = wire_value_spec(sw, v);
    if v >= 2 {
        assert(v as int * 64 > 127);
        assert(w == 127);
    } else if v == 1 {
        assert(w == 64);
        assert(store_value_spec(sw, w) == 1);
    } else {
        assert(w == 0);
        assert(store_value_spec(sw, w) == 0);
    }
    crate::store::law_set_then_get(s1, name, store_value_spec(sw, w), Origin::Midi, Signal::Change);
}

/// Control `name` is the first control driven by CC `cc`.
pub open spec fn index_of_cc_is(s: StoreModel, cc: u8, name: Seq<char>) -> bool {
    crate::store::index_of_cc(s.controls, cc) == s.index(name) && s.index(name) >= 0
}

/// A range control set from the GUI to `v` in `[0, to]` goes out as
/// `v * (127 / to)`; any CC value `w` coming back on its CC is stored as
/// `w / (127 / to)`, which for the value sent is `v` again.
pub proof fn law_range_round_trip(s: StoreModel, name: Seq<char>, c: RangeControl, v: u16, w: u8)
    requires
        s.wf(),
        s.get_config(name) == Some(Control::RangeControl(c)),
        Control::RangeControl(c).wf(),
        index_of_cc_is(s, c.cc, name),
        v <= c.to,
    ensures
        outbound_spec(s.set(name, v, Origin::Gui), name, Origin::Gui) == Some(
            MessageModel::ControlChange {
                channel: CC_CHANNEL,
                control: c.cc,
                value: (v as int * (127int / c.to as int)) as u8,
            },
        ),
        receive_cc_spec(s.set(name, v, Origin::Gui), c.cc, w).get(name) == Some(
            (w as int / (127int / c.to as int)) as u16,
        ),
        receive_cc_spec(
            s.set(name, v, Origin::Gui),
            c.cc,
            (v as int * (127int / c.to as int)) as u8,
        ).get(name) == Some(v),
{
    let k = 127int / c.to as int;
    assert(1 <= k && v as int * k <= 127 && (v as int * k) / k == v) by (nonlinear_arith)
        requires
            k == 127int / c.to as int,
            1 <= c.to <= 127,
            v <= c.to,
    ;
    lemma_index_of_name(s.controls, name);
    crate::store::law_set_then_get(s, name, v, Origin::Gui, Signal::Change);
    let s1 = s.set(name, v, Origin::Gui);
    lemma_index_of_name(s1.controls, name);
    crate::store::law_set_then_get(s1, name, (w as int / k) as u16, Origin::Midi, Signal::Change);
    crate::store::law_set_then_get(s1, name, v, Origin::Midi, Signal::Change);
}

/// A GUI write of `v` to a 14-bit control `k` stores `v` and, when it
/// changes `k`, announces `(k, GUI)`. The rule that then fires on
/// `(k, GUI)` produces exactly two further events, the MSB half and then
/// the LSB half, both tagged GUI, whatever the halves held before; each of
/// them goes out as a CC, and the halves put back together give `v`. The
/// halves then hold `v`'s two 7-bit parts (when they are distinct
/// controls), and their events set off no rule (when neither is `k`).
pub proof fn law_split_14bit(s: StoreModel, k: Seq<char>, msb: Seq<char>, lsb: Seq<char>, v: u16)
    requires
        s.wf(),
        s.has(k),
        s.has(msb),
        s.has(lsb),
        v <= 16383,
    ensures
        s.set(k, v, Origin::Gui).get(k) == Some(v),
        s.get(k) != Some(v) ==> s.set(k, v, Origin::Gui).events == s.events.push((k, Origin::Gui)),
        rules_spec(s.set(k, v, Origin::Gui), split_rules_model(k, msb, lsb), k, Origin::Gui).events
            == s.set(k, v, Origin::Gui).events.push((msb, Origin::Gui)).push((lsb, Origin::Gui)),
        rules_spec(s.set(k, v, Origin::Gui), split_rules_model(k, msb, lsb), k, Origin::Gui).get(lsb)
            == Some(lsb_of(v)),
        msb != lsb ==> rules_spec(
            s.set(k, v, Origin::Gui),
            split_rules_model(k, msb, lsb),
            k,
            Origin::Gui,
        ).get(msb) == Some(msb_of(v)),
        (msb_of(v) << 7u16) | lsb_of(v) == v,
        outbound_spec(
            rules_spec(s.set(k, v, Origin::Gui), split_rules_model(k, msb, lsb), k, Origin::Gui),
            msb,
            Origin::Gui,
        ) is Some,
        outbound_spec(
            rules_spec(s.set(k, v, Origin::Gui), split_rules_model(k, msb, lsb), k, Origin::Gui),
            lsb,
            Origin::Gui,
        ) is Some,
        k != msb && k != lsb ==> forall|t: RuleModel| #[trigger]
            split_rules_model(k, msb, lsb).contains(t) ==> !fires(t, msb, Origin::Gui) && !fires(
                t,
                lsb,
                Origin::Gui,
            ),
{
    let rules = split_rules_model(k, msb, lsb);
    let s1 = s.set(k, v, Origin::Gui);
    lemma_index_of_name(s.controls, k);
    lemma_index_of_name(s.controls, msb);
    lemma_index_of_name(s.controls, lsb);
    crate::store::law_set_then_get(s, k, v, Origin::Gui, Signal::Change);
    assert(rules.drop_last().drop_last().drop_last() =~= Seq::<RuleModel>::empty());
    assert(rules.drop_last().drop_last().last() == rules[0]);
    assert(rules.drop_last().last() == rules[1]);
    assert(rules.last() == rules[2]);
    reveal_with_fuel(rules_spec, 4);
    let s2 = split_spec(s1, k, msb, lsb, Origin::Gui);
    assert(rules_spec(s1, rules, k, Origin::Gui) == s2);
    let sm = s1.set_full(msb, msb_of(v), Origin::Gui, Signal::Force);
    lemma_index_of_name(s1.controls, msb);
    lemma_index_of_name(sm.controls, lsb);
    crate::store::law_set_then_get(s1, msb, msb_of(v), Origin::Gui, Signal::Force);
    crate::store::law_set_then_get(sm, lsb, lsb_of(v), Origin::Gui, Signal::Force);
    lemma_index_of_name(s2.controls, msb);
    lemma_index_of_name(s2.controls, lsb);
    assert(v <= 16383 ==> (((v >> 7u16) & 0x7fu16) << 7u16) | (v & 0x7fu16) == v) by (bit_vector);
    if k != msb && k != lsb {
        assert forall|t: RuleModel| #[trigger] rules.contains(t) implies !fires(t, msb, Origin::Gui)
            && !fires(t, lsb, Origin::Gui) by {
            let j = choose|j: int| 0 <= j < rules.len() && rules[j] == t;
            assert(j == 0 || j == 1 || j == 2);
        }
    }
}

/// Nothing that came from MIDI is sent back out: an event tagged MIDI has
/// no outbound CC, and a CC received from the device only adds events
/// tagged MIDI.
pub proof fn law_midi_not_echoed(s: StoreModel, name: Seq<char>, control: u8, value: u8)
    ensures
        outbound_spec(s, name, Origin::Midi) is None,
        receive_cc_spec(s, control, value).events.len() <= s.events.len() + 1,
        forall|i: int|
            s.events.len() <= i < receive_cc_spec(s, control, value).events.len() ==> (
            #[trigger] receive_cc_spec(s, control, value).events[i]).1 == Origin::Midi,
        forall|i: int|
            s.events.len() <= i < receive_cc_spec(s, control, value).events.len() ==> outbound_spec(
                receive_cc_spec(s, control, value),
                (#[trigger] receive_cc_spec(s, control, value).events[i]).0,
                receive_cc_spec(s, control, value).events[i].1,
            ) is None,
{
}

/// Which effects force the delay on or off, in effect order.
pub open spec fn delay_table(effects: Seq<Effect>) -> Seq<Option<bool>> {
    effects.map_values(|e: Effect| e.delay)
}

/// The two rules that keep the delay switch consistent with the selected
/// effect: selecting an effect that fixes the delay sets the switch, and
/// turning the delay on under an effect that rules it out selects no
/// effect.
pub fn effect_delay_rules(config: &Config, effect: &str, delay: &str) -> (r: Vec<Rule>)
    ensures
        r@.map_values(|x: Rule| x@) == seq![
            RuleModel {
                trigger: effect@,
                from: None,
                action: ActionModel::DelayFollowsEffect {
                    delay: delay@,
                    table: delay_table(config.effects@),
                },
            },
            RuleModel {
                trigger: delay@,
                from: None,
                action: ActionModel::EffectFollowsDelay {
                    effect: effect@,
                    table: delay_table(config.effects@),
                },
            },
        ],
{
    let mut table: Vec<Option<bool>> = Vec::new();
    let n = config.effects.len();
    let mut i: usize = 0;
    while i < n
        invariant
            i <= n,
            n == config.effects@.len(),
            table@ == delay_table(config.effects@).subrange(0, i as int),
        decreases n - i,
    {
        table.push(config.effects[i].delay);
        assert(delay_table(config.effects@).subrange(0, (i + 1) as int) =~= delay_table(
            config.effects@,
        ).subrange(0, i as int).push(config.effects@[i as int].delay));
        i = i + 1;
    }
    assert(table@ =~= delay_table(config.effects@));
    let mut r: Vec<Rule> = Vec::new();
    r.push(
        Rule {
            trigger: String::from_str(effect),
            from: None,
            action: RuleAction::DelayFollowsEffect { delay: String::from_str(delay), table: table.clone() },
        },
    );
    r.push(
        Rule {
            trigger: String::from_str(delay),
            from: None,
            action: RuleAction::EffectFollowsDelay { effect: String::from_str(effect), table },
        },
    );
    assert(r@.map_values(|x: Rule| x@) =~= seq![
        RuleModel {
            trigger: effect@,
            from: None,
            action: ActionModel::DelayFollowsEffect { delay: delay@, table: delay_table(config.effects@) },
        },
        RuleModel {
            trigger: delay@,
            from: None,
            action: ActionModel::EffectFollowsDelay { effect: effect@, table: delay_table(config.effects@) },
        },
    ]);
    r
}

/// The rules of a packed parameter and its sub-fields, two per field.
pub open spec fn compound_rules_model(packed: Seq<char>, fields: Seq<Seq<char>>) -> Seq<RuleModel>
    decreases fields.len(),
{
    if fields.len() == 0 {
        Seq::empty()
    } else {
        compound_rules_model(packed, fields.drop_last()) + seq![
            RuleModel { trigger: packed, from: None, action: ActionModel::Unpack { field: fields.last() } },
            RuleModel { trigger: fields.last(), from: Some(Origin::Gui), action: ActionModel::Pack { packed } },
        ]
    }
}

/// Rules for a byte-packed parameter shown as sub-fields: any change of
/// `packed` is copied down to each field as a MIDI write; a GUI change of a
/// field is copied up to `packed`.
pub fn compound_rules(packed: &str, fields: &Vec<String>) -> (r: Vec<Rule>)
    ensures
        r@.map_values(|x: Rule| x@) == compound_rules_model(
            packed@,
            fields@.map_values(|f: String| f@),
        ),
{
    let ghost fs = fields@.map_values(|f: String| f@);
    let mut r: Vec<Rule> = Vec::new();
    let n = fields.len();
    let mut i: usize = 0;
    while i < n
        invariant
            i <= n,
            n == fields@.len(),
            fs == fields@.map_values(|f: String| f@),
            r@.map_values(|x: Rule| x@) == compound_rules_model(packed@, fs.subrange(0, i as int)),
        decreases n - i,
    {
        let ghost before = r@;
        r.push(
            Rule {
                trigger: String::from_str(packed),
                from: None,
                action: RuleAction::Unpack { field: fields[i].clone() },
            },
        );
        r.push(
            Rule {
                trigger: fields[i].clone(),
                from: Some(Origin::Gui),
                action: RuleAction::Pack { packed: String::from_str(packed) },
            },
        );
        assert(fs.subrange(0, (i + 1) as int).drop_last() =~= fs.subrange(0, i as int));
        assert(fs.subrange(0, (i + 1) as int).last() == fields@[i as int]@);
        assert(r@.map_values(|x: Rule| x@) =~= before.map_values(|x: Rule| x@) + seq![
            RuleModel {
                trigger: packed@,
                from: None,
                action: ActionModel::Unpack { field: fields@[i as int]@ },
            },
            RuleModel {
                trigger: fields@[i as int]@,
                from: Some(Origin::Gui),
                action: ActionModel::Pack { packed: packed@ },
            },
        ]);
        i = i + 1;
    }
    assert(fs.subrange(0, n as int) =~= fs);
    r
}

/// Handing out queued events one at a time, oldest first, each after the
/// rules that fire on it ran: the store at the end, the events handed out,
/// and whether the queue ran dry within `budget` events.
pub open spec fn settle_spec(s: StoreModel, rules: Seq<RuleModel>, budget: nat) -> (
    StoreModel,
    Seq<(Seq<char>, Origin)>,
    bool,
)
    decreases budget,
{
    if s.events.len() == 0 {
        (s, Seq::empty(), true)
    } else if budget == 0 {
        (s, Seq::empty(), false)
    } else {
        let e = s.events[0];
        let s1 = rules_spec(StoreModel { events: s.events.drop_first(), ..s }, rules, e.0, e.1);
        let r = settle_spec(s1, rules, (budget - 1) as nat);
        (r.0, seq![e] + r.1, r.2)
    }
}

/// Runs the rules on queued store events, oldest first, and returns the
/// events to broadcast, in order, with whether the queue ran dry. It stops
/// after `budget` events, so it ends even when rules keep writing; events
/// left over stay queued.
pub fn settle(store: &mut Store, rules: &Vec<Rule>, budget: usize) -> (r: (Vec<StoreEvent>, bool))
    requires
        old(store).wf(),
    ensures
        final(store).wf(),
        final(store).spec_config() == old(store).spec_config(),
        r.0@.len() <= budget,
        (final(store)@, r.0@.map_values(|e: StoreEvent| e@), r.1) == settle_spec(
            old(store)@,
            rules@.map_values(|x: Rule| x@),
            budget as nat,
        ),
        r.1 ==> final(store)@.events.len() == 0,
{
    let ghost rs = rules@.map_values(|x: Rule| x@);
    let ghost target = settle_spec(store@, rs, budget as nat);
    let mut out: Vec<StoreEvent> = Vec::new();
    let mut left = budget;
    loop
        invariant
            store.wf(),
            store.spec_config() == old(store).spec_config(),
            rs == rules@.map_values(|x: Rule| x@),
            left <= budget,
            out@.len() + left == budget,
            target == settle_spec(old(store)@, rs, budget as nat),
            target.0 == settle_spec(store@, rs, left as nat).0,
            target.1 == out@.map_values(|e: StoreEvent| e@) + settle_spec(store@, rs, left as nat).1,
            target.2 == settle_spec(store@, rs, left as nat).2,
        ensures
            store.wf(),
            store.spec_config() == old(store).spec_config(),
            out@.len() <= budget,
            target == settle_spec(old(store)@, rs, budget as nat),
            target.0 == settle_spec(store@, rs, left as nat).0,
            target.1 == out@.map_values(|e: StoreEvent| e@) + settle_spec(store@, rs, left as nat).1,
            target.2 == settle_spec(store@, rs, left as nat).2,
            left == 0 || store@.events.len() == 0,
        decreases left,
    {
        if left == 0 {
            break;
        }
        let ghost before = store@;
        match store.pop_event() {
            None => {
                break;
            },
            Some(e) => {
                apply_rules(store, rules, &e);
                let ghost prev = out@;
                out.push(e);
                assert(out@.map_values(|x: StoreEvent| x@) =~= prev.map_values(|x: StoreEvent| x@).push(e@));
                assert(settle_spec(before, rs, left as nat).1 == seq![e@] + settle_spec(store@, rs, (left - 1) as nat).1);
                assert(prev.map_values(|x: StoreEvent| x@) + (seq![e@] + settle_spec(store@, rs, (left - 1) as nat).1)
                    =~= out@.map_values(|x: StoreEvent| x@) + settle_spec(store@, rs, (left - 1) as nat).1);
                left = left - 1;
            },
        }
    }
    assert(settle_spec(store@, rs, left as nat).1 =~= Seq::<(Seq<char>, Origin)>::empty());
    assert(out@.map_values(|e: StoreEvent| e@) + Seq::<(Seq<char>, Origin)>::empty() =~= out@.map_values(|e: StoreEvent| e@));
    let dry = !store.has_events();
    (out, dry)
}

} // verus!

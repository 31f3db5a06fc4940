use vstd::prelude::*;
use crate::model::{Config, Control, GetCC};

verus! {

/// Who caused a write to the store.
#[derive(Clone, Copy, Debug, PartialEq, Eq, Structural)]
pub enum Origin {
    Gui,
    Midi,
    Internal,
}

/// Whether a write that leaves the value unchanged is still announced.
#[derive(Clone, Copy, Debug, PartialEq, Eq, Structural)]
pub enum Signal {
    Change,
    Force,
}

/// A change notification: which control was written, and by whom.
#[derive(Clone, Debug)]
pub struct StoreEvent {
    pub name: String,
    pub origin: Origin,
}

impl View for StoreEvent {
    type V = (Seq<char>, Origin);

    open spec fn view(&self) -> (Seq<char>, Origin) {
        (self.name@, self.origin)
    }
}

/// Position of the control called `name`: the first entry with that name,
/// or -1.
pub open spec fn index_of_name(controls: Seq<(String, Control)>, name: Seq<char>) -> int
    decreases controls.len(),
{
    if controls.len() == 0 {
        -1
    } else if controls[0].0@ == name {
        0
    } else {
        let k = index_of_name(controls.drop_first(), name);
        if k < 0 {
            -1
        } else {
            k + 1
        }
    }
}

/// Position of the first control driven by CC `cc`, or -1.
pub open spec fn index_of_cc(controls: Seq<(String, Control)>, cc: u8) -> int
    decreases controls.len(),
{
    if controls.len() == 0 {
        -1
    } else if controls[0].1.cc_spec() == Some(cc) {
        0
    } else {
        let k = index_of_cc(controls.drop_first(), cc);
        if k < 0 {
            -1
        } else {
            k + 1
        }
    }
}

/// `index_of_name` is the first position holding `name`.
pub proof fn lemma_index_of_name(controls: Seq<(String, Control)>, name: Seq<char>)
    ensures
        -1 <= index_of_name(controls, name) < controls.len(),
        index_of_name(controls, name) >= 0 ==> controls[index_of_name(controls, name)].0@ == name,
        forall|j: int|
            0 <= j < controls.len() && (index_of_name(controls, name) < 0 || j < index_of_name(
                controls,
                name,
            )) ==> (#[trigger] controls[j]).0@ != name,
    decreases controls.len(),
{
    if controls.len() > 0 && controls[0].0@ != name {
        let t = controls.drop_first();
        lemma_index_of_name(t, name);
        assert forall|j: int|
            0 <= j < controls.len() && (index_of_name(controls, name) < 0 || j < index_of_name(
                controls,
                name,
            )) implies (#[trigger] controls[j]).0@ != name by {
            if j > 0 {
                assert(controls[j] == t[j - 1]);
            }
        }
    }
}

/// When no two controls share a name, a control's name leads back to its
/// own position.
pub proof fn lemma_index_of_distinct_name(controls: Seq<(String, Control)>, k: int)
    requires
        0 <= k < controls.len(),
        forall|i: int, j: int|
            0 <= i < j < controls.len() ==> (#[trigger] controls[i]).0@ != (#[trigger] controls[j]).0@,
    ensures
        index_of_name(controls, controls[k].0@) == k,
{
    lemma_index_of_name(controls, controls[k].0@);
    let f = index_of_name(controls, controls[k].0@);
    if f >= 0 && f < k {
        assert(controls[f].0@ != controls[k].0@);
    }
}

/// `index_of_cc` is the first position whose control has CC `cc`.
pub proof fn lemma_index_of_cc(controls: Seq<(String, Control)>, cc: u8)
    ensures
        -1 <= index_of_cc(controls, cc) < controls.len(),
        index_of_cc(controls, cc) >= 0 ==> controls[index_of_cc(controls, cc)].1.cc_spec() == Some(
            cc,
        ),
        forall|j: int|
            0 <= j < controls.len() && (index_of_cc(controls, cc) < 0 || j < index_of_cc(
                controls,
                cc,
            )) ==> (#[trigger] controls[j]).1.cc_spec() != Some(cc),
    decreases controls.len(),
{
    if controls.len() > 0 && controls[0].1.cc_spec() != Some(cc) {
        let t = controls.drop_first();
        lemma_index_of_cc(t, cc);
        assert forall|j: int|
            0 <= j < controls.len() && (index_of_cc(controls, cc) < 0 || j < index_of_cc(
                controls,
                cc,
            )) implies (#[trigger] controls[j]).1.cc_spec() != Some(cc) by {
            if j > 0 {
                assert(controls[j] == t[j - 1]);
            }
        }
    }
}

/// What a store holds: its descriptor's controls, one value per control,
/// the change events not yet handed out, and the edit buffer.
pub struct StoreModel {
    pub controls: Seq<(String, Control)>,
    pub values: Seq<u16>,
    pub events: Seq<(Seq<char>, Origin)>,
    pub program: Seq<u8>,
}

impl StoreModel {
    pub open spec fn index(self, name: Seq<char>) -> int {
        index_of_name(self.controls, name)
    }

    pub open spec fn has(self, name: Seq<char>) -> bool {
        self.index(name) >= 0
    }

    pub open spec fn get(self, name: Seq<char>) -> Option<u16> {
        let i = self.index(name);
        if i >= 0 {
            Some(self.values[i])
        } else {
            None
        }
    }

    pub open spec fn get_config(self, name: Seq<char>) -> Option<Control> {
        let i = self.index(name);
        if i >= 0 {
            Some(self.controls[i].1)
        } else {
            None
        }
    }

    /// One value per control.
    pub open spec fn wf(self) -> bool {
        self.values.len() == self.controls.len()
    }

    /// The first control driven by CC `cc`, with its name.
    pub open spec fn get_config_by_cc(self, cc: u8) -> Option<(Seq<char>, Control)> {
        let i = index_of_cc(self.controls, cc);
        if i >= 0 {
            Some((self.controls[i].0@, self.controls[i].1))
        } else {
            None
        }
    }

    /// Whether a write of `value` to `name` is announced.
    pub open spec fn broadcasts(self, name: Seq<char>, value: u16, signal: Signal) -> bool {
        self.has(name) && (self.get(name) != Some(value) || signal == Signal::Force)
    }

    /// The store after a write: unknown names are dropped; an unchanged
    /// value is announced only when forced.
    pub open spec fn set_full(self, name: Seq<char>, value: u16, origin: Origin, signal: Signal) -> StoreModel {
        if self.broadcasts(name, value, signal) {
            StoreModel {
                values: self.values.update(self.index(name), value),
                events: self.events.push((name, origin)),
                ..self
            }
        } else {
            self
        }
    }

    pub open spec fn set(self, name: Seq<char>, value: u16, origin: Origin) -> StoreModel {
        self.set_full(name, value, origin, Signal::Change)
    }
}

/// The controller store: a value per named control of one device
/// descriptor, with origin-tagged writes and a queue of change events.
pub struct Store {
    config: Config,
    values: Vec<u16>,
    events: Vec<StoreEvent>,
    program: Vec<u8>,
}

impl View for Store {
    type V = StoreModel;

    closed spec fn view(&self) -> StoreModel {
        StoreModel {
            controls: self.config.controls@,
            values: self.values@,
            events: self.events@.map_values(|e: StoreEvent| e@),
            program: self.program@,
        }
    }
}

impl Store {
    pub closed spec fn spec_config(&self) -> Config {
        self.config
    }

    /// The store's values match its controls one to one, and each control
    /// descriptor is usable.
    pub closed spec fn wf(&self) -> bool {
        &&& self@.wf()
        &&& self.values@.len() == self.config.controls@.len()
        &&& self.config.wf()
        &&& self.program@.len() == self.config.program_size
    }

    /// A store for `config` with every control at zero, an empty event
    /// queue and a zeroed edit buffer.
    pub fn new(config: Config) -> (s: Store)
        requires
            config.wf(),
        ensures
            s.wf(),
            s.spec_config() == config,
            s@.controls == config.controls@,
            s@.values == Seq::new(config.controls@.len(), |i: int| 0u16),
            s@.events.len() == 0,
            s@.program == Seq::new(config.program_size as nat, |i: int| 0u8),
    {
        let n = config.controls.len();
        let mut values: Vec<u16> = Vec::new();
        let mut i: usize = 0;
        while i < n
            invariant
                i <= n,
                values@ == Seq::new(i as nat, |k: int| 0u16),
            decreases n - i,
        {
            values.push(0);
            i = i + 1;
        }
        let mut program: Vec<u8> = Vec::new();
        let m = config.program_size;
        let mut j: usize = 0;
        while j < m
            invariant
                j <= m,
                program@ == Seq::new(j as nat, |k: int| 0u8),
            decreases m - j,
        {
            program.push(0);
            j = j + 1;
        }
        let s = Store { config, values, events: Vec::new(), program };
        assert(s@.events =~= Seq::<(Seq<char>, Origin)>::empty());
        s
    }

    /// Every control of a well-formed store is usable.
    pub proof fn lemma_wf_controls(&self)
        requires
            self.wf(),
        ensures
            forall|i: int| 0 <= i < self@.controls.len() ==> (#[trigger] self@.controls[i]).1.wf(),
            self@.wf(),
            self@.program.len() == self.spec_config().program_size,
            self@.controls == self.spec_config().controls@,
    {
    }

    pub fn config(&self) -> (r: &Config)
        ensures
            *r == self.spec_config(),
    {
        &self.config
    }

    /// Position of `name` among the controls, if present.
    fn find(&self, name: &str) -> (r: Option<usize>)
        ensures
            r matches Some(i) ==> i as int == self@.index(name@) && i < self@.controls.len(),
            r is None ==> self@.index(name@) < 0,
    {
        proof {
            lemma_index_of_name(self.config.controls@, name@);
        }
        let key = String::from_str(name);
        let n = self.config.controls.len();
        let mut i: usize = 0;
        while i < n
            invariant
                i <= n,
                n == self.config.controls@.len(),
                key@ == name@,
                forall|j: int| 0 <= j < i ==> (#[trigger] self.config.controls@[j]).0@ != name@,
            decreases n - i,
        {
            if self.config.controls[i].0 == key {
                proof {
                    lemma_index_of_name(self.config.controls@, name@);
                    let k = self@.index(name@);
                    assert(self.config.controls@[i as int].0@ == name@);
                    if k >= 0 && k < i {
                        assert(self.config.controls@[k].0@ == name@);
                    }
                }
                return Some(i);
            }
            i = i + 1;
        }
        None
    }

    pub fn has(&self, name: &str) -> (r: bool)
        ensures
            r == self@.has(name@),
    {
        self.find(name).is_some()
    }

    pub fn get(&self, name: &str) -> (r: Option<u16>)
        requires
            self.wf(),
        ensures
            r == self@.get(name@),
    {
        match self.find(name) {
            Some(i) => Some(self.values[i]),
            None => None,
        }
    }

    pub fn get_config(&self, name: &str) -> (r: Option<Control>)
        ensures
            r == self@.get_config(name@),
    {
        match self.find(name) {
            Some(i) => Some(self.config.controls[i].1),
            None => None,
        }
    }

    /// The first control driven by CC `cc`, with its name.
    pub fn get_config_by_cc(&self, cc: u8) -> (r: Option<(String, Control)>)
        ensures
            self@.get_config_by_cc(cc) == match r {
                Some(p) => Some((p.0@, p.1)),
                None => None,
            },
    {
        proof {
            lemma_index_of_cc(self.config.controls@, cc);
        }
        let n = self.config.controls.len();
        let mut i: usize = 0;
        while i < n
            invariant
                i <= n,
                n == self.config.controls@.len(),
                forall|j: int| 0 <= j < i ==> (#[trigger] self.config.controls@[j]).1.cc_spec() != Some(cc),
            decreases n - i,
        {
            let c = self.config.controls[i].1;
            if c.get_cc() == Some(cc) {
                proof {
                    lemma_index_of_cc(self.config.controls@, cc);
                    let k = index_of_cc(self@.controls, cc);
                    assert(self.config.controls@[i as int].1.cc_spec() == Some(cc));
                    if k >= 0 && k < i {
                        assert(self.config.controls@[k].1.cc_spec() == Some(cc));
                    }
                }
                return Some((self.config.controls[i].0.clone(), c));
            }
            i = i + 1;
        }
        None
    }

    /// Writes `value` to `name`. The write is dropped when the name is
    /// unknown; otherwise the value is stored and `(name, origin)` is queued
    /// when the value changed or `signal` is `Force`.
    pub fn set_full(&mut self, name: &str, value: u16, origin: Origin, signal: Signal)
        requires
            old(self).wf(),
        ensures
            final(self).wf(),
            final(self).spec_config() == old(self).spec_config(),
            final(self)@ == old(self)@.set_full(name@, value, origin, signal),
    {
        match self.find(name) {
            None => {},
            Some(i) => {
                if self.values[i] != value || signal == Signal::Force {
                    self.values.set(i, value);
                    let ev = StoreEvent { name: String::from_str(name), origin };
                    let ghost before = self.events@;
                    self.events.push(ev);
                    assert(self.events@.map_values(|e: StoreEvent| e@) =~= before.map_values(
                        |e: StoreEvent| e@,
                    ).push((name@, origin)));
                }
            },
        }
    }

    /// `set_full` with `Signal::Change`.
    pub fn set(&mut self, name: &str, value: u16, origin: Origin)
        requires
            old(self).wf(),
        ensures
            final(self).wf(),
            final(self).spec_config() == old(self).spec_config(),
            final(self)@ == old(self)@.set(name@, value, origin),
    {
        self.set_full(name, value, origin, Signal::Change)
    }

    /// Hands out the queued change events, oldest first, and empties the
    /// queue.
    pub fn take_events(&mut self) -> (r: Vec<StoreEvent>)
        requires
            old(self).wf(),
        ensures
            final(self).wf(),
            final(self).spec_config() == old(self).spec_config(),
            r@.map_values(|e: StoreEvent| e@) == old(self)@.events,
            final(self)@ == (StoreModel { events: Seq::empty(), ..old(self)@ }),
    {
        let mut r: Vec<StoreEvent> = Vec::new();
        std::mem::swap(&mut self.events, &mut r);
        assert(self@.events =~= Seq::<(Seq<char>, Origin)>::empty());
        r
    }

    /// Whether change events are queued.
    pub fn has_events(&self) -> (r: bool)
        requires
            self.wf(),
        ensures
            r == (self@.events.len() > 0),
    {
        self.events.len() > 0
    }

    /// Hands out the oldest queued change event, if any.
    pub fn pop_event(&mut self) -> (r: Option<StoreEvent>)
        requires
            old(self).wf(),
        ensures
            final(self).wf(),
            final(self).spec_config() == old(self).spec_config(),
            old(self)@.events.len() == 0 ==> r is None && final(self)@ == old(self)@,
            old(self)@.events.len() > 0 ==> (r matches Some(e) && e@ == old(self)@.events[0]
                && final(self)@ == (StoreModel { events: old(self)@.events.drop_first(), ..old(self)@ })),
    {
        if self.events.len() == 0 {
            return None;
        }
        let ghost before = self.events@;
        let e = self.events.remove(0);
        assert(self.events@.map_values(|x: StoreEvent| x@) =~= before.map_values(|x: StoreEvent| x@).drop_first());
        Some(e)
    }

    /// A copy of the edit buffer: the raw bytes of the program last
    /// loaded. The patch format is not modelled, so these bytes do not
    /// follow later writes to control values.
    pub fn program(&self) -> (r: Vec<u8>)
        ensures
            r@ == self@.program,
    {
        self.program.clone()
    }

    /// Replaces the edit buffer with `data`, which must be one program long.
    /// The bytes are kept as they are: no control value changes and no
    /// event is raised, since the patch format is not modelled.
    pub fn load_program(&mut self, data: Vec<u8>)
        requires
            old(self).wf(),
            data@.len() == old(self).spec_config().program_size,
        ensures
            final(self).wf(),
            final(self).spec_config() == old(self).spec_config(),
            final(self)@ == (StoreModel { program: data@, ..old(self)@ }),
    {
        self.program = data;
    }
}

/// A value written to a control of the store is the value read back,
/// whichever origin and signal the write carried.
pub proof fn law_set_then_get(s: StoreModel, name: Seq<char>, v: u16, origin: Origin, signal: Signal)
    requires
        s.wf(),
        s.has(name),
    ensures
        s.set_full(name, v, origin, signal).get(name) == Some(v),
        s.set(name, v, origin).get(name) == Some(v),
{
    lemma_index_of_name(s.controls, name);
}

/// Rewriting a control's current value announces nothing with
/// `Signal::Change` and exactly one event, `(name, origin)`, with
/// `Signal::Force`; the values stay as they were.
pub proof fn law_unchanged_write_signals(s: StoreModel, name: Seq<char>, origin: Origin)
    requires
        s.wf(),
        s.has(name),
    ensures
        s.set_full(name, s.get(name).unwrap(), origin, Signal::Change) == s,
        s.set_full(name, s.get(name).unwrap(), origin, Signal::Force).events == s.events.push(
            (name, origin),
        ),
        s.set_full(name, s.get(name).unwrap(), origin, Signal::Force).values == s.values,
{
    lemma_index_of_name(s.controls, name);
    let v = s.get(name).unwrap();
    assert(s.values.update(s.index(name), v) =~= s.values);
}

/// When exactly one control is driven by CC `cc`, the reverse lookup by
/// CC yields that control and its name.
pub proof fn law_lookup_by_cc(s: StoreModel, cc: u8, i: int)
    requires
        0 <= i < s.controls.len(),
        s.controls[i].1.cc_spec() == Some(cc),
        forall|j: int|
            0 <= j < s.controls.len() && j != i ==> (#[trigger] s.controls[j]).1.cc_spec() != Some(
                cc,
            ),
    ensures
        s.get_config_by_cc(cc) == Some((s.controls[i].0@, s.controls[i].1)),
{
    lemma_index_of_cc(s.controls, cc);
}

} // verus!

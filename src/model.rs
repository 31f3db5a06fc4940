use vstd::prelude::*;

verus! {

/// A device descriptor: identity, program sizes and the map of controls.
#[derive(Clone, Debug)]
pub struct Config {
    pub name: String,
    pub family: u16,
    pub member: u16,
    pub program_size: usize,
    pub all_programs_size: usize,
    /// Device byte used in SysEx dump frames.
    pub pod_id: u8,
    pub amp_models: Vec<Amp>,
    pub cab_models: Vec<String>,
    pub effects: Vec<Effect>,
    /// Control name to control descriptor, in catalog order.
    pub controls: Vec<(String, Control)>,
}

#[derive(Clone, Default, Debug)]
pub struct Amp {
    pub name: String,
    pub bright_switch: bool,
    pub presence: bool,
    pub delay2: bool,
}

#[derive(Clone, Default, Debug)]
pub struct Effect {
    pub name: String,
    pub delay: Option<bool>,
}

#[derive(Clone, Copy, Debug, PartialEq, Eq, Structural)]
pub enum Control {
    SwitchControl(SwitchControl),
    RangeControl(RangeControl),
    Select(Select),
}

#[derive(Clone, Copy, Debug, PartialEq, Eq, Structural)]
pub struct SwitchControl {
    pub cc: u8,
}

#[derive(Clone, Copy, Debug, PartialEq, Eq, Structural)]
pub struct RangeControl {
    pub cc: u8,
    pub from: u8,
    pub to: u8,
}

#[derive(Clone, Copy, Debug, PartialEq, Eq, Structural)]
pub struct Select {
    pub cc: u8,
}

impl From<SwitchControl> for Control {
    fn from(c: SwitchControl) -> (r: Self)
        ensures
            r == Control::SwitchControl(c),
    {
        Control::SwitchControl(c)
    }
}

impl vstd::std_specs::convert::FromSpecImpl<SwitchControl> for Control {
    open spec fn obeys_from_spec() -> bool {
        true
    }

    open spec fn from_spec(c: SwitchControl) -> Control {
        Control::SwitchControl(c)
    }
}

impl From<RangeControl> for Control {
    fn from(c: RangeControl) -> (r: Self)
        ensures
            r == Control::RangeControl(c),
    {
        Control::RangeControl(c)
    }
}

impl vstd::std_specs::convert::FromSpecImpl<RangeControl> for Control {
    open spec fn obeys_from_spec() -> bool {
        true
    }

    open spec fn from_spec(c: RangeControl) -> Control {
        Control::RangeControl(c)
    }
}

impl From<Select> for Control {
    fn from(c: Select) -> (r: Self)
        ensures
            r == Control::Select(c),
    {
        Control::Select(c)
    }
}

impl vstd::std_specs::convert::FromSpecImpl<Select> for Control {
    open spec fn obeys_from_spec() -> bool {
        true
    }

    open spec fn from_spec(c: Select) -> Control {
        Control::Select(c)
    }
}

impl Default for RangeControl {
    /// The full 7-bit range on CC 0.
    fn default() -> (r: Self)
        ensures
            r == (RangeControl { cc: 0, from: 0, to: 127 }),
    {
        RangeControl { cc: 0, from: 0, to: 127 }
    }
}

/// Anything that is driven by one MIDI Control Change number.
pub trait GetCC {
    spec fn cc_spec(&self) -> Option<u8>;

    fn get_cc(&self) -> (r: Option<u8>)
        ensures
            r == self.cc_spec(),
    ;
}

impl GetCC for RangeControl {
    open spec fn cc_spec(&self) -> Option<u8> {
        Some(self.cc)
    }

    fn get_cc(&self) -> (r: Option<u8>) {
        Some(self.cc)
    }
}

impl GetCC for SwitchControl {
    open spec fn cc_spec(&self) -> Option<u8> {
        Some(self.cc)
    }

    fn get_cc(&self) -> (r: Option<u8>) {
        Some(self.cc)
    }
}

impl GetCC for Select {
    open spec fn cc_spec(&self) -> Option<u8> {
        Some(self.cc)
    }

    fn get_cc(&self) -> (r: Option<u8>) {
        Some(self.cc)
    }
}

impl GetCC for Control {
    open spec fn cc_spec(&self) -> Option<u8> {
        match self {
            Control::SwitchControl(c) => Some(c.cc),
            Control::RangeControl(c) => Some(c.cc),
            Control::Select(c) => Some(c.cc),
        }
    }

    fn get_cc(&self) -> (r: Option<u8>) {
        match self {
            Control::SwitchControl(c) => c.get_cc(),
            Control::RangeControl(c) => c.get_cc(),
            Control::Select(c) => c.get_cc(),
        }
    }
}

impl Control {
    /// A descriptor is usable when a range control has `1 <= to <= 127`
    /// and `from <= to`.
    pub open spec fn wf(self) -> bool {
        match self {
            Control::RangeControl(c) => 1 <= c.to <= 127 && c.from <= c.to,
            _ => true,
        }
    }

    /// Factor between a stored value and its 7-bit wire value.
    pub open spec fn scale_spec(self) -> u16 {
        match self {
            Control::SwitchControl(_) => 64,
            Control::RangeControl(c) => (127int / (c.to as int)) as u16,
            Control::Select(_) => 1,
        }
    }

    /// Largest value of the control's logical domain; a select control is
    /// bounded only by the 7-bit wire value.
    pub open spec fn max_value(self) -> int {
        match self {
            Control::SwitchControl(_) => 1,
            Control::RangeControl(c) => c.to - c.from,
            Control::Select(_) => 127,
        }
    }

    /// `127 / to` for a range control (integer division), 64 for a switch
    /// and 1 for a select.
    pub fn scale(&self) -> (r: u16)
        requires
            self.wf(),
        ensures
            r == self.scale_spec(),
            1 <= r <= 127,
    {
        match self {
            Control::SwitchControl(_) => 64,
            Control::RangeControl(c) => {
                assert(1 <= 127int / (c.to as int) <= 127) by (nonlinear_arith)
                    requires
                        1 <= c.to <= 127,
                ;
                127u16 / (c.to as u16)
            },
            Control::Select(_) => 1,
        }
    }
}

/// No two entries of `controls` share a name.
pub open spec fn names_unique(controls: Seq<(String, Control)>) -> bool {
    forall|i: int, j: int|
        0 <= i < j < controls.len() ==> (#[trigger] controls[i]).0@ != (#[trigger] controls[j]).0@
}

impl Config {
    pub open spec fn names(self) -> Seq<Seq<char>> {
        self.controls@.map_values(|e: (String, Control)| e.0@)
    }

    /// Every control descriptor is usable, and no two controls share a
    /// name.
    pub open spec fn wf(self) -> bool {
        &&& forall|i: int| 0 <= i < self.controls@.len() ==> (#[trigger] self.controls@[i]).1.wf()
        &&& names_unique(self.controls@)
    }

    /// Whether every control descriptor is usable and the names are
    /// distinct.
    pub fn is_usable(&self) -> (r: bool)
        ensures
            r == self.wf(),
    {
        let n = self.controls.len();
        let mut i: usize = 0;
        while i < n
            invariant
                i <= n,
                n == self.controls@.len(),
                forall|j: int| 0 <= j < i ==> (#[trigger] self.controls@[j]).1.wf(),
            decreases n - i,
        {
            let ok = match self.controls[i].1 {
                Control::RangeControl(c) => 1 <= c.to && c.to <= 127 && c.from <= c.to,
                _ => true,
            };
            if !ok {
                return false;
            }
            i = i + 1;
        }
        let mut a: usize = 0;
        while a < n
            invariant
                a <= n,
                n == self.controls@.len(),
                forall|j: int| 0 <= j < n ==> (#[trigger] self.controls@[j]).1.wf(),
                forall|x: int, y: int|
                    0 <= x < a && x < y < n ==> (#[trigger] self.controls@[x]).0@ != (
                    #[trigger] self.controls@[y]).0@,
            decreases n - a,
        {
            let mut b: usize = a + 1;
            while b < n
                invariant
                    a < n,
                    a + 1 <= b <= n,
                    n == self.controls@.len(),
                    forall|y: int| a < y < b ==> self.controls@[a as int].0@ != (
                    #[trigger] self.controls@[y]).0@,
                decreases n - b,
            {
                if self.controls[a].0 == self.controls[b].0 {
                    return false;
                }
                b = b + 1;
            }
            a = a + 1;
        }
        true
    }
}

} // verus!

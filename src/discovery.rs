use vstd::prelude::*;
use crate::midi::{MessageModel, MidiMessage, decode};
use crate::model::Config;

verus! {

/// Why discovery could not single out one input/output pair.
///
/// There is no error for narrowing getting stuck: each narrowing round
/// probes only the first half of the candidate outputs and keeps the second
/// half when nothing answers, so that discovery ends within
/// `⌈log2 |outputs|⌉ + 1` settle windows. A device lost during narrowing
/// therefore ends on the last candidate output, without an error.
#[derive(Clone, Copy, Debug, PartialEq, Eq, Structural)]
pub enum DiscoveryError {
    NoInputPorts,
    NoOutputPorts,
    /// No input answered the inquiry sent on every output.
    NoResponse,
    /// Every input answered: a loopback or broadcast setup.
    AmbiguousInputs,
}

/// One settle window: send a device inquiry on outputs
/// `outputs_from..outputs_to`, then listen on `input` (on every input
/// when `None`) and report the inputs that answered.
#[derive(Clone, Copy, Debug, PartialEq, Eq, Structural)]
pub struct Probe {
    pub outputs_from: usize,
    pub outputs_to: usize,
    pub input: Option<usize>,
}

#[derive(Clone, Copy, Debug, PartialEq, Eq, Structural)]
pub enum DiscoveryStep {
    Probe(Probe),
    Found { input: usize, output: usize },
    Failed(DiscoveryError),
}

#[derive(Clone, Copy, Debug, PartialEq, Eq, Structural)]
pub enum Phase {
    /// Waiting for the answers to the inquiry sent on every output.
    Inputs,
    /// Narrowing the outputs: the first half of `lo..hi` is being probed.
    Outputs,
    Finished,
}

/// Where discovery stands.
pub struct DiscoveryModel {
    pub n_inputs: nat,
    pub n_outputs: nat,
    pub phase: Phase,
    pub input: nat,
    pub lo: nat,
    pub hi: nat,
    /// Settle windows used so far, the pending one included.
    pub windows: nat,
}

/// `⌈log2 n⌉` for `n >= 1`, 0 below.
pub open spec fn clog2(n: nat) -> nat
    decreases n,
{
    if n <= 1 {
        0
    } else {
        1 + clog2(((n + 1) / 2) as nat)
    }
}

pub proof fn lemma_clog2_monotone(a: nat, b: nat)
    requires
        a <= b,
    ensures
        clog2(a) <= clog2(b),
    decreases b,
{
    if a > 1 {
        lemma_clog2_monotone(((a + 1) / 2) as nat, ((b + 1) / 2) as nat);
    }
}

/// First half of `lo..hi`: its upper end.
pub open spec fn half_end(lo: nat, hi: nat) -> nat {
    lo + ((hi - lo + 1) / 2) as nat
}

impl DiscoveryModel {
    pub open spec fn wf(self) -> bool {
        &&& self.n_inputs >= 1
        &&& self.n_outputs >= 1
        &&& match self.phase {
            Phase::Inputs => self.windows == 1 && self.lo == 0 && self.hi == self.n_outputs,
            Phase::Outputs => {
                &&& self.input < self.n_inputs
                &&& self.lo + 2 <= self.hi <= self.n_outputs
                &&& self.windows + clog2((self.hi - self.lo) as nat) <= clog2(self.n_outputs) + 2
            },
            Phase::Finished => self.windows <= clog2(self.n_outputs) + 1,
        }
    }

    /// Decreases with every step that does not finish.
    pub open spec fn measure(self) -> nat {
        match self.phase {
            Phase::Inputs => clog2(self.n_outputs) + 1,
            Phase::Outputs => clog2((self.hi - self.lo) as nat),
            Phase::Finished => 0,
        }
    }

    /// The probe that the current phase waits on.
    pub open spec fn pending_probe(self) -> Probe {
        match self.phase {
            Phase::Inputs => Probe { outputs_from: 0, outputs_to: self.n_outputs as usize, input: None },
            _ => Probe {
                outputs_from: self.lo as usize,
                outputs_to: half_end(self.lo, self.hi) as usize,
                input: Some(self.input as usize),
            },
        }
    }
}

/// Whether `i` is among the answering inputs.
pub open spec fn replied(answers: Seq<usize>, i: nat) -> bool {
    exists|k: int| 0 <= k < answers.len() && answers[k] == i
}

/// Index of the first answer that names an existing input, or -1.
pub open spec fn first_valid(answers: Seq<usize>, n_inputs: nat) -> int
    decreases answers.len(),
{
    if answers.len() == 0 {
        -1
    } else if answers[0] < n_inputs {
        0
    } else {
        let k = first_valid(answers.drop_first(), n_inputs);
        if k < 0 {
            -1
        } else {
            k + 1
        }
    }
}

pub proof fn lemma_first_valid(answers: Seq<usize>, n_inputs: nat)
    ensures
        -1 <= first_valid(answers, n_inputs) < answers.len(),
        first_valid(answers, n_inputs) >= 0 ==> answers[first_valid(answers, n_inputs)] < n_inputs,
        forall|j: int|
            0 <= j < answers.len() && (first_valid(answers, n_inputs) < 0 || j < first_valid(
                answers,
                n_inputs,
            )) ==> #[trigger] answers[j] >= n_inputs,
    decreases answers.len(),
{
    if answers.len() > 0 && answers[0] >= n_inputs {
        let t = answers.drop_first();
        lemma_first_valid(t, n_inputs);
        assert forall|j: int|
            0 <= j < answers.len() && (first_valid(answers, n_inputs) < 0 || j < first_valid(
                answers,
                n_inputs,
            )) implies #[trigger] answers[j] >= n_inputs by {
            if j > 0 {
                assert(answers[j] == t[j - 1]);
            }
        }
    }
}

/// The discovery step: the next phase and what to do, given the inputs
/// that answered the pending probe.
pub open spec fn step_spec(d: DiscoveryModel, answers: Seq<usize>) -> (DiscoveryModel, DiscoveryStep) {
    match d.phase {
        Phase::Inputs => {
            let k = first_valid(answers, d.n_inputs);
            if k < 0 {
                (DiscoveryModel { phase: Phase::Finished, ..d }, DiscoveryStep::Failed(DiscoveryError::NoResponse))
            } else if forall|i: nat| i < d.n_inputs ==> #[trigger] replied(answers, i) {
                (
                    DiscoveryModel { phase: Phase::Finished, ..d },
                    DiscoveryStep::Failed(DiscoveryError::AmbiguousInputs),
                )
            } else {
                let input = answers[k] as nat;
                if d.n_outputs == 1 {
                    (
                        DiscoveryModel { phase: Phase::Finished, input, ..d },
                        DiscoveryStep::Found { input: input as usize, output: 0 },
                    )
                } else {
                    let next = DiscoveryModel { phase: Phase::Outputs, input, windows: d.windows + 1, ..d };
                    (next, DiscoveryStep::Probe(next.pending_probe()))
                }
            }
        },
        Phase::Outputs => {
            let mid = half_end(d.lo, d.hi);
            let (lo, hi) = if replied(answers, d.input) {
                (d.lo, mid)
            } else {
                (mid, d.hi)
            };
            if hi - lo == 1 {
                (
                    DiscoveryModel { phase: Phase::Finished, lo, hi, ..d },
                    DiscoveryStep::Found { input: d.input as usize, output: lo as usize },
                )
            } else {
                let next = DiscoveryModel { lo, hi, windows: d.windows + 1, ..d };
                (next, DiscoveryStep::Probe(next.pending_probe()))
            }
        },
        Phase::Finished => (d, DiscoveryStep::Failed(DiscoveryError::NoResponse)),
    }
}

/// However the ports answer, a well-formed discovery has used at most
/// `⌈log2 |outputs|⌉ + 1` settle windows, and every step either finishes
/// or makes the measure smaller, so discovery ends within that many.
pub proof fn law_discovery_bound(d: DiscoveryModel, answers: Seq<usize>)
    requires
        d.wf(),
        d.phase != Phase::Finished,
    ensures
        d.windows <= clog2(d.n_outputs) + 1,
        step_spec(d, answers).0.wf(),
        step_spec(d, answers).0.phase == Phase::Finished || step_spec(d, answers).0.measure()
            < d.measure(),
        step_spec(d, answers).1 is Probe ==> step_spec(d, answers).0.windows == d.windows + 1,
        step_spec(d, answers).1 is Probe ==> step_spec(d, answers).1 == DiscoveryStep::Probe(
            step_spec(d, answers).0.pending_probe(),
        ),
{
    let n = d.n_outputs;
    match d.phase {
        Phase::Inputs => {
            lemma_first_valid(answers, d.n_inputs);
            if n >= 2 {
                assert(clog2(n) == 1 + clog2(((n + 1) / 2) as nat));
            }
        },
        Phase::Outputs => {
            let m = (d.hi - d.lo) as nat;
            let half = ((m + 1) / 2) as nat;
            assert(clog2(m) == 1 + clog2(half));
            lemma_clog2_monotone((m / 2) as nat, half);
            let mid = half_end(d.lo, d.hi);
            assert(mid - d.lo == half);
            assert(d.hi - mid == m / 2);
        },
        Phase::Finished => {},
    }
}

pub proof fn lemma_clog2_below(n: nat)
    requires
        n >= 1,
    ensures
        clog2(n) + 1 <= n,
    decreases n,
{
    if n > 1 {
        lemma_clog2_below(((n + 1) / 2) as nat);
    }
}

/// Discovery of the one input/output pair wired to a device, by halving
/// the candidate outputs. The output found last is not confirmed by a
/// further probe; a device lost during narrowing ends on the last candidate.
pub struct Discovery {
    n_inputs: usize,
    n_outputs: usize,
    phase: Phase,
    input: usize,
    lo: usize,
    hi: usize,
    windows: usize,
}

impl View for Discovery {
    type V = DiscoveryModel;

    closed spec fn view(&self) -> DiscoveryModel {
        DiscoveryModel {
            n_inputs: self.n_inputs as nat,
            n_outputs: self.n_outputs as nat,
            phase: self.phase,
            input: self.input as nat,
            lo: self.lo as nat,
            hi: self.hi as nat,
            windows: self.windows as nat,
        }
    }
}

fn contains_index(answers: &Vec<usize>, i: usize) -> (r: bool)
    ensures
        r == replied(answers@, i as nat),
{
    let n = answers.len();
    let mut k: usize = 0;
    while k < n
        invariant
            k <= n,
            n == answers@.len(),
            forall|j: int| 0 <= j < k ==> answers@[j] != i,
        decreases n - k,
    {
        if answers[k] == i {
            return true;
        }
        k = k + 1;
    }
    false
}

impl Discovery {
    /// Starts discovery over `n_inputs` inputs and `n_outputs` outputs and
    /// returns the first probe: an inquiry on every output, answers
    /// awaited on every input.
    pub fn start(n_inputs: usize, n_outputs: usize) -> (r: Result<(Discovery, Probe), DiscoveryError>)
        ensures
            n_inputs == 0 ==> r == Err::<(Discovery, Probe), DiscoveryError>(DiscoveryError::NoInputPorts),
            n_inputs > 0 && n_outputs == 0 ==> r == Err::<(Discovery, Probe), DiscoveryError>(
                DiscoveryError::NoOutputPorts,
            ),
            n_inputs > 0 && n_outputs > 0 ==> (r matches Ok((d, p)) && d@ == (DiscoveryModel {
                n_inputs: n_inputs as nat,
                n_outputs: n_outputs as nat,
                phase: Phase::Inputs,
                input: 0,
                lo: 0,
                hi: n_outputs as nat,
                windows: 1,
            }) && d@.wf() && p == (Probe { outputs_from: 0, outputs_to: n_outputs, input: None })),
    {
        if n_inputs == 0 {
            return Err(DiscoveryError::NoInputPorts);
        }
        if n_outputs == 0 {
            return Err(DiscoveryError::NoOutputPorts);
        }
        let d = Discovery {
            n_inputs,
            n_outputs,
            phase: Phase::Inputs,
            input: 0,
            lo: 0,
            hi: n_outputs,
            windows: 1,
        };
        Ok((d, Probe { outputs_from: 0, outputs_to: n_outputs, input: None }))
    }

    pub fn is_finished(&self) -> (r: bool)
        ensures
            r == (self@.phase == Phase::Finished),
    {
        self.phase == Phase::Finished
    }

    /// Settle windows used so far.
    pub fn windows(&self) -> (r: usize)
        ensures
            r == self@.windows,
    {
        self.windows
    }

    /// Advances discovery with the inputs that answered the pending probe,
    /// and says what to do next.
    pub fn step(&mut self, answers: &Vec<usize>) -> (r: DiscoveryStep)
        requires
            old(self)@.wf(),
            old(self)@.phase != Phase::Finished,
        ensures
            final(self)@.wf(),
            (final(self)@, r) == step_spec(old(self)@, answers@),
    {
        proof {
            law_discovery_bound(self@, answers@);
            lemma_clog2_below(self@.n_outputs);
            lemma_first_valid(answers@, self@.n_inputs);
        }
        if self.phase == Phase::Inputs {
            let n = answers.len();
            let mut k: usize = 0;
            while k < n
                invariant
                    k <= n,
                    n == answers@.len(),
                    forall|j: int| 0 <= j < k ==> answers@[j] >= self.n_inputs,
                ensures
                    k <= n,
                    forall|j: int| 0 <= j < k ==> answers@[j] >= self.n_inputs,
                    k < n ==> answers@[k as int] < self.n_inputs,
                decreases n - k,
            {
                if answers[k] < self.n_inputs {
                    break;
                }
                k = k + 1;
            }
            if k == n {
                self.phase = Phase::Finished;
                return DiscoveryStep::Failed(DiscoveryError::NoResponse);
            }
            let ghost kk = first_valid(answers@, self@.n_inputs);
            assert(kk == k as int) by {
                lemma_first_valid(answers@, self@.n_inputs);
                if kk >= 0 && kk < k {
                    assert(answers@[kk] >= self.n_inputs);
                }
            }
            let mut all = true;
            let mut i: usize = 0;
            while i < self.n_inputs
                invariant
                    i <= self.n_inputs,
                    all ==> forall|j: nat| j < i ==> #[trigger] replied(answers@, j),
                    !all ==> !(forall|j: nat| j < self.n_inputs ==> #[trigger] replied(answers@, j)),
                ensures
                    all ==> forall|j: nat| j < self.n_inputs ==> #[trigger] replied(answers@, j),
                    !all ==> !(forall|j: nat| j < self.n_inputs ==> #[trigger] replied(answers@, j)),
                decreases self.n_inputs - i,
            {
                if !contains_index(answers, i) {
                    all = false;
                    break;
                }
                i = i + 1;
            }
            if all {
                self.phase = Phase::Finished;
                return DiscoveryStep::Failed(DiscoveryError::AmbiguousInputs);
            }
            self.input = answers[k];
            if self.n_outputs == 1 {
                self.phase = Phase::Finished;
                return DiscoveryStep::Found { input: self.input, output: 0 };
            }
            self.phase = Phase::Outputs;
            self.windows = self.windows + 1;
            let mid = self.lo + (self.hi - self.lo) / 2 + (self.hi - self.lo) % 2;
            return DiscoveryStep::Probe(Probe { outputs_from: self.lo, outputs_to: mid, input: Some(self.input) });
        }
        let mid = self.lo + (self.hi - self.lo) / 2 + (self.hi - self.lo) % 2;
        if contains_index(answers, self.input) {
            self.hi = mid;
        } else {
            self.lo = mid;
        }
        if self.hi - self.lo == 1 {
            self.phase = Phase::Finished;
            return DiscoveryStep::Found { input: self.input, output: self.lo };
        }
        self.windows = self.windows + 1;
        let next = self.lo + (self.hi - self.lo) / 2 + (self.hi - self.lo) % 2;
        DiscoveryStep::Probe(Probe { outputs_from: self.lo, outputs_to: next, input: Some(self.input) })
    }
}

/// Whether a frame is a device inquiry answer from a device of `catalog`.
pub open spec fn is_known_reply_spec(frame: Seq<u8>, catalog: Seq<Config>) -> bool {
    match decode(frame) {
        Ok(MessageModel::UniversalDeviceInquiryResponse { family, member, .. }) => exists|i: int|
            0 <= i < catalog.len() && (#[trigger] catalog[i]).family == family && catalog[i].member
                == member,
        _ => false,
    }
}

/// Whether an inbound frame during discovery identifies a catalogued
/// device.
pub fn is_known_reply(frame: &[u8], catalog: &Vec<Config>) -> (r: bool)
    ensures
        r == is_known_reply_spec(frame@, catalog@),
{
    let parsed = MidiMessage::from_bytes(frame);
    match parsed {
        Ok(MidiMessage::UniversalDeviceInquiryResponse { family, member, .. }) => {
            assert(decode(frame@) matches Ok(MessageModel::UniversalDeviceInquiryResponse { family: f, member: m, .. }) && f == family && m == member);
            let n = catalog.len();
            let mut i: usize = 0;
            while i < n
                invariant
                    i <= n,
                    n == catalog@.len(),
                    decode(frame@) matches Ok(
                        MessageModel::UniversalDeviceInquiryResponse { family: f, member: m, .. },
                    ) && f == family && m == member,
                    forall|j: int| 0 <= j < i ==> !((#[trigger] catalog@[j]).family == family
                        && catalog@[j].member == member),
                decreases n - i,
            {
                if catalog[i].family == family && catalog[i].member == member {
                    assert(catalog@[i as int].family == family && catalog@[i as int].member == member);
                    return true;
                }
                i = i + 1;
            }
            false
        },
        _ => false,
    }
}

} // verus!

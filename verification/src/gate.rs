//! Noise gate: a hysteresis-based silence suppressor applied before encoding
//! outgoing audio.
//!
//! The noise gate keeps a fixed-length lookback ring of the most recent samples.
//! While closed it emits silence in place of the real samples, but the ring is
//! still advanced so the noise-gate state reflects the true input. A closed gate
//! opens when any sample in the ring exceeds the activate threshold in
//! magnitude; an open gate closes only once every sample in the ring is below
//! the deactivate threshold, which is strictly lower than the activate
//! threshold to avoid chatter.

use vstd::prelude::*;

verus! {

/// The fixed equilibrium value emitted while the noise gate is closed.
pub const SILENCE: i16 = 0;

/// Ring length used when a caller has no reason to pick another.
pub const DEFAULT_LOOKBACK: usize = 4096;

/// Magnitude of a sample, as a mathematical integer (so `i16::MIN` needs no
/// special case).
pub open spec fn mag(s: i16) -> int {
    if s < 0 {
        -(s as int)
    } else {
        s as int
    }
}

/// Some sample of `w` exceeds `t` in magnitude.
pub open spec fn any_exceeds(w: Seq<i16>, t: u16) -> bool {
    exists|i: int| 0 <= i < w.len() && mag(w[i]) > t as int
}

/// Every sample of `w` is below `t` in magnitude.
pub open spec fn all_below(w: Seq<i16>, t: u16) -> bool {
    forall|i: int| 0 <= i < w.len() ==> mag(w[i]) < t as int
}

/// Mathematical model of a gate: the ring contents, the slot the next sample
/// lands in, whether the noise gate is open, and the two thresholds.
pub struct GateModel {
    pub window: Seq<i16>,
    pub pos: int,
    pub open: bool,
    pub activate: u16,
    pub deactivate: u16,
}

impl GateModel {
    pub open spec fn wf(self) -> bool {
        &&& self.window.len() > 0
        &&& 0 <= self.pos < self.window.len()
        &&& self.deactivate < self.activate
    }
}

/// One step of the noise gate: the new sample replaces the oldest ring entry, then
/// the open flag is recomputed over the updated ring with hysteresis.
pub open spec fn gate_step(m: GateModel, s: i16) -> GateModel {
    let w = m.window.update(m.pos, s);
    GateModel {
        window: w,
        pos: if m.pos + 1 == m.window.len() {
            0
        } else {
            m.pos + 1
        },
        open: if m.open {
            !all_below(w, m.deactivate)
        } else {
            any_exceeds(w, m.activate)
        },
        activate: m.activate,
        deactivate: m.deactivate,
    }
}

/// The noise gate after consuming the whole input sequence `xs`, in order.
pub open spec fn gate_run(m: GateModel, xs: Seq<i16>) -> GateModel
    decreases xs.len(),
{
    if xs.len() == 0 {
        m
    } else {
        gate_step(gate_run(m, xs.drop_last()), xs.last())
    }
}

/// What a step emits: the live sample if the noise gate ends up open, silence
/// otherwise.
pub open spec fn gate_output(m: GateModel, s: i16) -> i16 {
    if gate_step(m, s).open {
        s
    } else {
        SILENCE
    }
}

/// Stream transformer that suppresses near-silence input before encoding.
pub struct NoiseGate {
    window: Vec<i16>,
    pos: usize,
    open: bool,
    activate: u16,
    deactivate: u16,
}

impl View for NoiseGate {
    type V = GateModel;

    closed spec fn view(&self) -> GateModel {
        GateModel {
            window: self.window@,
            pos: self.pos as int,
            open: self.open,
            activate: self.activate,
            deactivate: self.deactivate,
        }
    }
}

/// `m` is exceeded by some sample of `w`.
fn vec_any_exceeds(w: &Vec<i16>, t: u16) -> (r: bool)
    ensures
        r == any_exceeds(w@, t),
{
    let mut i: usize = 0;
    while i < w.len()
        invariant
            i <= w.len(),
            forall|k: int| 0 <= k < i ==> mag(w@[k]) <= t as int,
        decreases w.len() - i,
    {
        if magnitude(w[i]) > t as u32 {
            return true;
        }
        i = i + 1;
    }
    false
}

fn vec_all_below(w: &Vec<i16>, t: u16) -> (r: bool)
    ensures
        r == all_below(w@, t),
{
    let mut i: usize = 0;
    while i < w.len()
        invariant
            i <= w.len(),
            forall|k: int| 0 <= k < i ==> mag(w@[k]) < t as int,
        decreases w.len() - i,
    {
        if magnitude(w[i]) >= t as u32 {
            return false;
        }
        i = i + 1;
    }
    true
}

/// Executable counterpart of [`mag`].
pub fn magnitude(s: i16) -> (m: u32)
    ensures
        m as int == mag(s),
{
    if s < 0 {
        (-(s as i32)) as u32
    } else {
        s as u32
    }
}

impl NoiseGate {
    /// A closed gate over a silent ring of `lookback` samples.
    pub fn new(lookback: usize, activate: u16, deactivate: u16) -> (r: NoiseGate)
        requires
            lookback > 0,
            deactivate < activate,
        ensures
            r@.wf(),
            r@.window == Seq::new(lookback as nat, |i: int| SILENCE),
            r@.pos == 0,
            !r@.open,
            r@.activate == activate,
            r@.deactivate == deactivate,
    {
        let mut window: Vec<i16> = Vec::new();
        let mut i: usize = 0;
        while i < lookback
            invariant
                i <= lookback,
                window@ =~= Seq::new(i as nat, |k: int| SILENCE),
            decreases lookback - i,
        {
            window.push(SILENCE);
            i = i + 1;
        }
        proof {
            assert(window@ =~= Seq::new(lookback as nat, |i: int| SILENCE));
        }
        NoiseGate { window, pos: 0, open: false, activate, deactivate }
    }

    pub fn is_open(&self) -> (r: bool)
        ensures
            r == self@.open,
    {
        self.open
    }

    /// Advance the noise gate by one sample and return what should be emitted in
    /// its place: the sample itself while the noise gate is open, silence while it
    /// is closed.
    pub fn step(&mut self, s: i16) -> (out: i16)
        requires
            old(self)@.wf(),
        ensures
            final(self)@ == gate_step(old(self)@, s),
            final(self)@.wf(),
            out == gate_output(old(self)@, s),
    {
        let n = self.window.len();
        self.window.set(self.pos, s);
        self.pos = if self.pos + 1 == n {
            0
        } else {
            self.pos + 1
        };
        self.open = if self.open {
            !vec_all_below(&self.window, self.deactivate)
        } else {
            vec_any_exceeds(&self.window, self.activate)
        };
        if self.open {
            s
        } else {
            SILENCE
        }
    }

    /// Gate a whole block of samples in order, emitting one output per input.
    pub fn process_block(&mut self, block: &Vec<i16>) -> (out: Vec<i16>)
        requires
            old(self)@.wf(),
        ensures
            final(self)@ == gate_run(old(self)@, block@),
            final(self)@.wf(),
            out@.len() == block@.len(),
            forall|i: int|
                0 <= i < block@.len() ==> out@[i] == gate_output(
                    gate_run(old(self)@, block@.take(i)),
                    block@[i],
                ),
    {
        let mut out: Vec<i16> = Vec::new();
        let mut i: usize = 0;
        proof {
            assert(block@.take(0) =~= Seq::<i16>::empty());
        }
        while i < block.len()
            invariant
                i <= block@.len(),
                old(self)@.wf(),
                self@ == gate_run(old(self)@, block@.take(i as int)),
                self@.wf(),
                out@.len() == i,
                forall|k: int|
                    0 <= k < i ==> out@[k] == gate_output(
                        gate_run(old(self)@, block@.take(k)),
                        block@[k],
                    ),
            decreases block.len() - i,
        {
            let ghost pre = self@;
            let o = self.step(block[i]);
            out.push(o);
            i = i + 1;
            proof {
                assert(block@.take(i as int).drop_last() =~= block@.take(i - 1));
                assert(block@.take(i as int).last() == block@[i - 1]);
            }
        }
        proof {
            assert(block@.take(block@.len() as int) =~= block@);
        }
        out
    }
}

/// Gate hysteresis, one step: an open gate stays open across a step unless
/// every sample of the updated lookback ring is below the deactivate
/// threshold — in particular, an input that merely dips below the activate
/// threshold cannot close it.
pub proof fn lemma_gate_hysteresis_step(m: GateModel, s: i16)
    requires
        m.wf(),
        m.open,
        !all_below(gate_step(m, s).window, m.deactivate),
    ensures
        gate_step(m, s).open,
{
}

/// Gate hysteresis over any input sequence: once the noise gate is open, it is
/// still open after consuming `xs` as long as at no intermediate step the
/// whole lookback ring fell below the deactivate threshold.
pub proof fn lemma_gate_hysteresis(m: GateModel, xs: Seq<i16>)
    requires
        m.wf(),
        m.open,
        forall|k: int|
            0 < k <= xs.len() ==> !all_below(#[trigger] gate_run(m, xs.take(k)).window, m.deactivate),
    ensures
        gate_run(m, xs).open,
    decreases xs.len(),
{
    if xs.len() > 0 {
        let ys = xs.drop_last();
        assert forall|k: int|
            0 < k <= ys.len() implies !all_below(
            #[trigger] gate_run(m, ys.take(k)).window,
            m.deactivate,
        ) by {
            assert(ys.take(k) =~= xs.take(k));
            assert(!all_below(gate_run(m, xs.take(k)).window, m.deactivate));
        }
        lemma_gate_hysteresis(m, ys);
        lemma_gate_run_wf(m, ys);
        assert(xs.take(xs.len() as int) =~= xs);
        assert(!all_below(gate_run(m, xs.take(xs.len() as int)).window, m.deactivate));
    }
}

/// A gate step keeps the ring length and the thresholds, so well-formedness
/// is preserved forever.
pub proof fn lemma_gate_step_wf(m: GateModel, s: i16)
    requires
        m.wf(),
    ensures
        gate_step(m, s).wf(),
        gate_step(m, s).activate == m.activate,
        gate_step(m, s).deactivate == m.deactivate,
{
}

/// A whole run keeps the thresholds and well-formedness, too.
pub proof fn lemma_gate_run_wf(m: GateModel, xs: Seq<i16>)
    requires
        m.wf(),
    ensures
        gate_run(m, xs).wf(),
        gate_run(m, xs).activate == m.activate,
        gate_run(m, xs).deactivate == m.deactivate,
    decreases xs.len(),
{
    if xs.len() > 0 {
        lemma_gate_run_wf(m, xs.drop_last());
    }
}

} // verus!

use vstd::prelude::*;
use crate::step::Cycle;

verus! {

/// The cycle trace recorder: an append-only sequence of Cycles, one per
/// executed (real or virtual) instruction, in exact execution order. An
/// inactive recorder is the "no sink supplied" mode: recording is skipped
/// and the sequence stays empty, with no effect on execution.
pub struct Trace {
    active: bool,
    cycles: Vec<Cycle>,
}

impl Trace {
    /// Whether cycles are being recorded.
    pub closed spec fn is_active(self) -> bool {
        self.active
    }

    /// The cycles recorded so far, in execution order.
    pub closed spec fn recorded(self) -> Seq<Cycle> {
        self.cycles@
    }

    /// A fresh recorder; `active` selects tracing-enabled or -disabled mode.
    pub fn new(active: bool) -> (t: Trace)
        ensures
            t.is_active() == active,
            t.recorded() == Seq::<Cycle>::empty(),
    {
        Trace { active, cycles: Vec::new() }
    }

    /// Append one cycle; a no-op when the recorder is inactive.
    pub fn record(&mut self, c: Cycle)
        ensures
            final(self).is_active() == old(self).is_active(),
            final(self).recorded() == if old(self).is_active() {
                old(self).recorded().push(c)
            } else {
                old(self).recorded()
            },
    {
        if self.active {
            self.cycles.push(c);
        }
    }

    /// Read access to the recorded cycles.
    pub fn cycles(&self) -> (v: &Vec<Cycle>)
        ensures
            v@ == self.recorded(),
    {
        &self.cycles
    }

    /// Number of recorded cycles.
    pub fn len(&self) -> (n: usize)
        ensures
            n == self.recorded().len(),
    {
        self.cycles.len()
    }
}

} // verus!

//! The session state driven by the external trigger: a field paired with a
//! running search, advanced one step per message, plus the cost-to-hue
//! mapping used by the display layer.

use vstd::prelude::*;

use crate::field::Problem;
use crate::search::step_rel;
use crate::search::Algo;

verus! {

/// The largest cost a field cell is expected to hold; the reference point
/// of the cost-to-hue mapping.
pub const MAX_VALUE: u32 = 10000;

/// Maps a cell cost to a hue: cost `0` to `240` (the most desirable hue)
/// and cost `MAX_VALUE` to `0`, linearly in between, rounded down.
pub fn color(v: u32) -> (h: u32)
    requires
        v <= MAX_VALUE,
    ensures
        h == ((MAX_VALUE - v) * 240) / (MAX_VALUE as int),
        h <= 240,
{
    ((MAX_VALUE - v) * 240) / MAX_VALUE
}

/// One whole visualization session: the immutable field and the search
/// over it.
pub struct Model {
    pub problem: Problem,
    pub algo: Algo,
}

/// The messages the external trigger can deliver.
pub enum Msg {
    /// Advance the search by one step.
    Next,
}

impl Model {
    /// The field is fully populated, the search state is structurally
    /// valid, and the two agree on the grid size.
    pub open spec fn wf(self) -> bool {
        &&& self.problem.wf()
        &&& self.algo.wf()
        &&& self.problem.size == self.algo.size
    }

    /// Handles one message: `Next` advances the search by one step over
    /// the session's field.  Always requests a re-render.
    pub fn update(&mut self, msg: Msg) -> (render: bool)
        requires
            old(self).wf(),
            old(self).algo.progressive(),
        ensures
            render,
            final(self).wf(),
            final(self).problem == old(self).problem,
            (final(self).algo.size >= 2 ==> final(self).algo.progressive()),
            step_rel(old(self).algo, final(self).algo, old(self).problem),
    {
        match msg {
            Msg::Next => {
                self.algo.next(&self.problem);
            },
        }
        true
    }
}

} // verus!

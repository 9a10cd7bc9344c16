//! The settings of the effects.
use vstd::prelude::*;

use crate::frame::Frame;
use crate::scratch::FxScratch;

verus! {

pub struct ParticlesAndTrailsPlugin {
    /// Vertex capacity of the shared buffer: 4 per particle, 2 per trail point.
    pub capacity: usize,
    /// Asset path of the atlas every sprite is a region of.
    pub atlas: String,
}

impl ParticlesAndTrailsPlugin {
    /// The scratch that the effects start with.
    pub fn scratch(&self) -> (scratch: FxScratch)
        requires
            self.capacity * 36 <= isize::MAX,
        ensures
            scratch.wf(),
            scratch.vertex_capacity == self.capacity,
            scratch@ == Frame::empty(),
    {
        FxScratch::with_capacity(self.capacity)
    }
}

} // verus!

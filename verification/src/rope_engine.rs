//! The shared simulation configuration: one process-wide value the host
//! exposes to every rope, read once at rope initialization.

use vstd::prelude::*;

verus! {

pub struct RopeEngine {
    pub iteration_count: i32,
}

impl RopeEngine {
    /// The default configuration: fifty relaxation passes per tick.
    pub fn init() -> (r: RopeEngine)
        ensures
            r.iteration_count == 50,
    {
        RopeEngine { iteration_count: 50 }
    }

    /// The relaxation pass count as a loop bound: a non-positive
    /// configured count means no passes.
    pub fn passes(&self) -> (r: usize)
        ensures
            r == if self.iteration_count >= 0 {
                self.iteration_count as int
            } else {
                0int
            },
    {
        if self.iteration_count >= 0 {
            self.iteration_count as usize
        } else {
            0
        }
    }
}

} // verus!

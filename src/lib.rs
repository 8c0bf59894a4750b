//! Admission control for a chunked upload pipeline: weighted FIFO gates, one per
//! pipeline stage, with their sizing policy.
use vstd::prelude::*;

pub mod gate;
pub mod semaphores;
pub mod workflow;

verus! {

} // verus!

//! Parallel-flow arrangement.

use vstd::prelude::*;

verus! {

/// Parallel-flow heat exchanger arrangement.
#[derive(Debug, Clone, Copy)]
pub struct ParallelFlow;

} // verus!

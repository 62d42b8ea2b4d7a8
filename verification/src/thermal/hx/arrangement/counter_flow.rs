//! Counter-flow arrangement.

use vstd::prelude::*;

verus! {

/// Counter-flow heat exchanger arrangement.
#[derive(Debug, Clone, Copy)]
pub struct CounterFlow;

} // verus!

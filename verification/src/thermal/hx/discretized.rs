//! Discretized counterflow and parallel-flow heat exchanger modeling.

use std::marker::PhantomData;
use vstd::prelude::*;

verus! {

/// Entry point for solving a discretized heat exchanger with the given
/// arrangement and node count `N`.
pub struct DiscretizedHx<Arrangement, const N: usize> {
    _arrangement: PhantomData<Arrangement>,
}

} // verus!

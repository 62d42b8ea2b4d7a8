//! Interpolation strategies for grids of any dimension.

use vstd::prelude::*;

verus! {

/// Interpolation strategies supported for N-dimensional interpolation.
#[derive(Debug, Clone, Copy)]
pub enum StrategyND {
    /// Linear interpolation using multilinear weighting.
    Linear,
    /// Nearest-neighbor interpolation based on the closest grid point.
    Nearest,
}

} // verus!

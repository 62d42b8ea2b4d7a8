//! Interpolation strategies for two-dimensional grids.

use vstd::prelude::*;

verus! {

/// Interpolation strategies supported for two-dimensional interpolation.
#[derive(Debug, Clone, Copy)]
pub enum Strategy2D {
    /// Linear interpolation using bilinear weighting.
    Linear,
    /// Nearest-neighbor interpolation based on the closest grid point.
    Nearest,
}

} // verus!

//! Interpolation strategies for three-dimensional grids.

use vstd::prelude::*;

verus! {

/// Interpolation strategies supported for three-dimensional interpolation.
#[derive(Debug, Clone, Copy)]
pub enum Strategy3D {
    /// Linear interpolation using trilinear weighting.
    Linear,
    /// Nearest-neighbor interpolation based on the closest grid point.
    Nearest,
}

} // verus!

//! One-dimensional interpolation strategies.

use vstd::prelude::*;

verus! {

/// Interpolation strategies supported for one-dimensional interpolation.
#[derive(Debug, Clone, Copy)]
pub enum Strategy1D {
    /// Linear interpolation between adjacent grid points.
    Linear,
    /// Nearest-neighbor interpolation based on the closest grid point.
    Nearest,
    /// Nearest-neighbor interpolation that selects the point to the left of the input.
    LeftNearest,
    /// Nearest-neighbor interpolation that selects the point to the right of the input.
    RightNearest,
}

} // verus!

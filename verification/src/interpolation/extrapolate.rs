//! Extrapolation strategy.

use vstd::prelude::*;

verus! {

/// Extrapolation strategy
///
/// Controls what happens if the supplied interpolant point is outside the
/// bounds of the interpolation grid.
#[derive(Clone, Copy, Debug, PartialEq, Default)]
pub enum Extrapolate<T> {
    /// Evaluate beyond the limits of the interpolation grid.
    Enable,
    /// If the point is beyond grid limits, return this value instead.
    Fill(T),
    /// Restrict the interpolant point to the limits of the interpolation grid.
    Clamp,
    /// Wrap around to the other end of periodic data. Does NOT check that the
    /// first and last values are equal.
    Wrap,
    /// Return an error when the interpolant point is beyond the limits of the
    /// interpolation grid.
    #[default]
    Error,
}

} // verus!

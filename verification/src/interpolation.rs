//! Options for grid interpolation.

pub mod extrapolate;
pub mod n;
pub mod one;
pub mod three;
pub mod two;

pub use extrapolate::Extrapolate;
pub use n::StrategyND;
pub use one::Strategy1D;
pub use three::Strategy3D;
pub use two::Strategy2D;

//! Stratified thermal storage tank building blocks.

pub mod adjacent;
pub mod insulation;

pub use adjacent::Adjacent;
pub use insulation::Insulation;

//! Arithmetic example components.

pub mod adder;
pub mod arithmetic;
pub mod multiplier;

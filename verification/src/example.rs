//! Small example components.

pub mod math;

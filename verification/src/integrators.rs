//! Time integrators.

pub mod forward_euler;

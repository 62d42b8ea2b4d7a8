//! Verified components for building thermal and scheduling models.
//!
//! Each module keeps the integer and structural logic of a component; the
//! floating-point physics that surrounds it lives outside this crate.

pub mod controller;
pub mod example;
pub mod integrators;
pub mod interpolation;
pub mod schedules;
pub mod thermal;

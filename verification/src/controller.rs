//! Controllers.

pub mod thermostat;

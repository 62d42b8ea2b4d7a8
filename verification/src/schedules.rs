//! Time-based schedules.

pub mod step_schedule;

//! Thermal components.

pub mod hx;
pub mod stratified_tank;
pub mod stratified_tank_new;

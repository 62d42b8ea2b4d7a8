//! Errors raised when a stratified tank cannot be created.

use vstd::prelude::*;

verus! {

/// Errors that can occur when creating a stratified tank.
#[derive(Debug)]
pub enum StratifiedTankCreationError {
    /// The tank geometry is invalid.
    Geometry(String),
    /// An auxiliary heat source location is invalid.
    AuxLocation { index: usize, context: String },
    /// A port pair's inlet location is invalid.
    PortInletLocation { index: usize, context: String },
    /// A port pair's outlet location is invalid.
    PortOutletLocation { index: usize, context: String },
}

} // verus!

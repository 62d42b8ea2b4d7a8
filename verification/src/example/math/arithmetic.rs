//! Errors of the floating-point arithmetic example component.

use vstd::prelude::*;

verus! {

/// An error reported by the arithmetic example component.
#[derive(Debug, PartialEq)]
pub enum ArithmeticError {
    /// The divisor `y` was zero.
    DivisionByZero,
}

impl ArithmeticError {
    /// The human-readable description of the error.
    pub fn message(&self) -> (m: &'static str)
        ensures
            self is DivisionByZero ==> m@ == "Value for y must not be zero."@,
    {
        match self {
            ArithmeticError::DivisionByZero => "Value for y must not be zero.",
        }
    }
}

} // verus!

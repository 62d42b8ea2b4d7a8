//! A component that multiplies its input by a constant factor.

use std::convert::Infallible;
use std::ops::Mul;
use vstd::prelude::*;
use vstd::std_specs::ops::MulSpec;

verus! {

/// Multiplies each input by a fixed factor.
///
/// Generic over any `T: Mul<Output = T> + Copy`; for the integer types the
/// result is the exact product, and callers must keep it in range.
pub struct Multiplier<T> {
    factor: T,
}

impl<T> Multiplier<T> where T: Mul<Output = T> + Copy {
    /// The factor every input is multiplied by.
    pub closed spec fn factor(&self) -> T {
        self.factor
    }

    /// Creates a multiplier with the given factor.
    pub fn new(factor: T) -> (multiplier: Self)
        ensures
            multiplier.factor() == factor,
    {
        Self { factor }
    }

    /// Returns `input * factor`.
    pub fn call(&self, input: T) -> (r: Result<T, Infallible>)
        requires
            input.mul_req(self.factor()),
        ensures
            r is Ok,
            T::obeys_mul_spec() ==> r == Ok::<T, Infallible>(input.mul_spec(self.factor())),
    {
        Ok(input.mul(self.factor))
    }
}

} // verus!

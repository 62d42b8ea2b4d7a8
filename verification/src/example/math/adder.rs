//! A component that adds a constant increment to its input.

use std::convert::Infallible;
use std::ops::Add;
use vstd::prelude::*;
use vstd::std_specs::ops::AddSpec;

verus! {

/// Adds a fixed increment to each input.
///
/// Generic over any `T: Add<Output = T> + Copy`; for the integer types the
/// result is the exact sum, and callers must keep it in range.
pub struct Adder<T> {
    increment: T,
}

impl<T> Adder<T> where T: Add<Output = T> + Copy {
    /// The increment added to every input.
    pub closed spec fn increment(&self) -> T {
        self.increment
    }

    /// Creates an adder with the given increment.
    pub fn new(increment: T) -> (adder: Self)
        ensures
            adder.increment() == increment,
    {
        Self { increment }
    }

    /// Returns `input + increment`.
    pub fn call(&self, input: T) -> (r: Result<T, Infallible>)
        requires
            input.add_req(self.increment()),
        ensures
            r is Ok,
            T::obeys_add_spec() ==> r == Ok::<T, Infallible>(input.add_spec(self.increment())),
    {
        Ok(input.add(self.increment))
    }
}

} // verus!

//! A first-order explicit integrator using the forward Euler method.
//!
//! The step itself (`value + derivative * dt`) is carried out on physical
//! quantities by the integrable type; this module holds the component's
//! configuration.

use std::marker::PhantomData;
use vstd::prelude::*;

verus! {

/// A component that performs a single forward Euler integration step on
/// values of type `T`.
#[derive(Debug)]
pub struct ForwardEuler<T> {
    _marker: PhantomData<T>,
}

impl<T> ForwardEuler<T> {
    /// Creates a new forward Euler component.
    pub fn new() -> Self
    {
        Self { _marker: PhantomData }
    }
}

impl<T> Clone for ForwardEuler<T> {
    fn clone(&self) -> Self {
        Self::new()
    }
}

impl<T> Copy for ForwardEuler<T> {}

impl<T> Default for ForwardEuler<T> {
    fn default() -> Self {
        Self::new()
    }
}

} // verus!

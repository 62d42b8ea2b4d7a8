//! Heat exchanger configuration.

pub mod arrangement;
pub mod discretized;

use vstd::prelude::*;

verus! {

/// A heat exchanger configured with a flow arrangement `T`.
pub struct Hx<T>(T);

impl<T> Hx<T> {
    /// The arrangement this exchanger was configured with.
    pub closed spec fn arrangement(&self) -> T {
        self.0
    }

    /// Creates a heat exchanger configured with the supplied arrangement.
    pub fn new(arrangement: T) -> (hx: Self)
        ensures
            hx.arrangement() == arrangement,
    {
        Self(arrangement)
    }
}

} // verus!

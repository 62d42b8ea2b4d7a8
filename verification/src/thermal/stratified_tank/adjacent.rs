//! Values at the bottom, side and top faces of a tank node.

use vstd::prelude::*;

verus! {

/// Values at the bottom, side, and top faces of a node.
#[derive(Debug, Clone, Copy, PartialEq, Default)]
pub struct Adjacent<T> {
    pub bottom: T,
    pub side: T,
    pub top: T,
}

impl<T: Copy> Adjacent<T> {
    /// The same value on every face.
    pub fn from_value(value: T) -> (r: Self)
        ensures
            r.bottom == value,
            r.side == value,
            r.top == value,
    {
        Self { bottom: value, side: value, top: value }
    }
}

} // verus!

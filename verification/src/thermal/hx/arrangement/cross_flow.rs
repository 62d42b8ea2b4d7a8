//! Cross-flow arrangement.

use vstd::prelude::*;

verus! {

/// Marker for how a cross-flow stream behaves across its flow channel.
pub trait MixState {}

/// Marker type for a cross-flow stream that is mixed across the flow channel.
pub struct Mixed;

/// Marker type for a cross-flow stream that remains unmixed across the flow channel.
pub struct Unmixed;

impl MixState for Mixed {}

impl MixState for Unmixed {}

/// Cross-flow heat exchanger arrangement, with the mixing of each stream.
#[derive(Debug, Clone, Copy)]
pub struct CrossFlow<T: MixState, U: MixState>(T, U);

} // verus!

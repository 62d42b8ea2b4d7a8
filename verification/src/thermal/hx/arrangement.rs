//! Flow arrangements supported by the heat exchanger utilities.

pub mod counter_flow;
pub mod cross_flow;
pub mod parallel_flow;
pub mod shell_and_tube;

pub use counter_flow::CounterFlow;
pub use cross_flow::{CrossFlow, MixState, Mixed, Unmixed};
pub use parallel_flow::ParallelFlow;
pub use shell_and_tube::ShellAndTube;

//! The runtime of the simulation: the scheduler that runs the tasks, the
//! tasks it owns, and the errors of its handles.
use vstd::prelude::*;

pub mod handle;
pub mod scheduler;
pub mod task;

pub use handle::{HandleInner, TryCurrentError};
pub use scheduler::BlockOnError;
pub use task::{Id, JoinError};

verus! {
} // verus!

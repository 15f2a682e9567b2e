//! A discrete-event simulation runtime: simulated time, a fair batch
//! semaphore, a timer for sleeping tasks and the decision core of a
//! single-threaded task scheduler.
use vstd::prelude::*;

pub mod task_waker;
pub mod runtime;
pub mod sync;
pub mod time;

verus! {
} // verus!

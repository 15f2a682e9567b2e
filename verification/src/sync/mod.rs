//! Synchronization primitives for tasks of the simulation.
use vstd::prelude::*;

pub mod batch_semaphore;
pub mod semaphore;

pub use batch_semaphore::{AcquireError, TryAcquireError};
pub use semaphore::{OwnedSemaphorePermit, Semaphore, SemaphorePermit};

verus! {
} // verus!

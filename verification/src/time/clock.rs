//! A handle to the simulation clock.
use vstd::prelude::*;

verus! {

/// A handle to the simulation clock; the current time itself is kept by the
/// program that drives the simulation.
#[derive(Debug, Clone, Copy)]
pub struct Clock;

impl Clock {
    /// Creates a handle to the simulation clock.
    pub fn new() -> (c: Clock) {
        Clock
    }
}

} // verus!

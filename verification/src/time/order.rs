//! The order of points of simulated time.
use vstd::prelude::*;
use core::cmp::Ordering;
use vstd::std_specs::cmp::{PartialEqSpecImpl, PartialOrdSpecImpl};
use crate::time::SimTime;
use crate::time::duration::compare_nanos;

verus! {

impl PartialEq for SimTime {
    /// Two points of time are equal when they lie at the same time.
    fn eq(&self, other: &SimTime) -> (r: bool) {
        self.as_duration() == other.as_duration()
    }
}

impl PartialEqSpecImpl for SimTime {
    open spec fn obeys_eq_spec() -> bool {
        true
    }

    open spec fn eq_spec(&self, other: &SimTime) -> bool {
        self@ == other@
    }
}

impl PartialOrd for SimTime {
    /// Orders points of time from the earliest to the latest.
    fn partial_cmp(&self, other: &SimTime) -> (r: Option<Ordering>) {
        self.as_duration().partial_cmp(&other.as_duration())
    }
}

impl PartialOrdSpecImpl for SimTime {
    open spec fn obeys_partial_cmp_spec() -> bool {
        true
    }

    open spec fn partial_cmp_spec(&self, other: &SimTime) -> Option<Ordering> {
        Some(compare_nanos(self@, other@))
    }
}

} // verus!

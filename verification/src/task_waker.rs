//! The handles through which a waiting task is woken again, and what an
//! operation that may have to wait reports.
use vstd::prelude::*;

verus! {

/// A handle that wakes a task; what it wakes is opaque to the library.
#[verifier::external_type_specification]
#[verifier::external_body]
pub struct ExWaker(std::task::Waker);

/// Whether an operation that may have to wait has completed, with its
/// output once it has.
#[derive(Debug, Clone, Copy, PartialEq, Eq)]
pub enum Poll<T> {
    /// The operation has completed with this output.
    Ready(T),
    /// The operation has to wait; the handle it was given is woken once it
    /// can make progress.
    Pending,
}

impl<T> Poll<T> {
    /// Whether the operation has completed.
    pub fn is_ready(&self) -> (b: bool)
        ensures
            b == (*self is Ready),
    {
        match self {
            Poll::Ready(_) => true,
            Poll::Pending => false,
        }
    }

    /// Whether the operation has to wait.
    pub fn is_pending(&self) -> (b: bool)
        ensures
            b == (*self is Pending),
    {
        match self {
            Poll::Ready(_) => false,
            Poll::Pending => true,
        }
    }
}

/// Whether the handle `waker` would wake the same task as `other`, as
/// `Waker::will_wake` answers it: the answer compares the two handles as
/// they are, and nothing more of it is stated.
pub uninterp spec fn spec_will_wake(waker: std::task::Waker, other: std::task::Waker) -> bool;

/// Whether two handles would wake the same task (`Waker::will_wake`); the
/// answer is named [`spec_will_wake`] of the two handles.
#[verifier::external_body]
pub(crate) fn will_wake(waker: &std::task::Waker, other: &std::task::Waker) -> (b: bool)
    ensures
        b == spec_will_wake(*waker, *other),
{
    waker.will_wake(other)
}

} // verus!

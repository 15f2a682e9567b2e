//! What a handle to the runtime reports when no runtime can be found.
use vstd::prelude::*;

verus! {

/// The parts of the runtime that its handles share; none so far.
#[derive(Debug)]
pub struct HandleInner {}

/// What a missing runtime is reported with where no runtime has been
/// entered.
pub const CONTEXT_MISSING_ERROR: &'static str =
    "there is no reactor running, must be called from the context of a Osaka1.x runtime";

/// What a missing runtime is reported with where the thread-local slot that
/// holds it has been destroyed.
pub const THREAD_LOCAL_DESTROYED_ERROR: &'static str =
    "The Osakacontext thread-local variable has been destroyed.";

/// Why no runtime could be found.
#[derive(Debug, Clone, Copy, PartialEq, Eq, Structural)]
pub enum TryCurrentErrorKind {
    /// No runtime has been entered on this thread.
    NoContext,
    /// The thread-local slot that holds the runtime has been destroyed.
    ThreadLocalDestroyed,
}

/// The error given where a handle to the current runtime is asked for and
/// none can be found.
#[derive(Debug, Clone, Copy, PartialEq, Eq, Structural)]
pub struct TryCurrentError {
    kind: TryCurrentErrorKind,
}

impl TryCurrentError {
    /// Why no runtime could be found.
    pub closed spec fn spec_kind(self) -> TryCurrentErrorKind {
        self.kind
    }

    /// No runtime has been entered on this thread.
    pub fn new_no_context() -> (e: TryCurrentError)
        ensures
            e.spec_kind() == TryCurrentErrorKind::NoContext,
    {
        TryCurrentError { kind: TryCurrentErrorKind::NoContext }
    }

    /// The thread-local slot that holds the runtime has been destroyed.
    pub fn new_thread_local_destroyed() -> (e: TryCurrentError)
        ensures
            e.spec_kind() == TryCurrentErrorKind::ThreadLocalDestroyed,
    {
        TryCurrentError { kind: TryCurrentErrorKind::ThreadLocalDestroyed }
    }

    /// How the error reads.
    pub fn message(&self) -> (m: &'static str)
        ensures
            self.spec_kind() == TryCurrentErrorKind::NoContext ==> m@ == CONTEXT_MISSING_ERROR@,
            self.spec_kind() == TryCurrentErrorKind::ThreadLocalDestroyed ==> m@
                == THREAD_LOCAL_DESTROYED_ERROR@,
    {
        match self.kind {
            TryCurrentErrorKind::NoContext => CONTEXT_MISSING_ERROR,
            TryCurrentErrorKind::ThreadLocalDestroyed => THREAD_LOCAL_DESTROYED_ERROR,
        }
    }

    /// Whether no runtime had been entered on this thread.
    pub fn is_missing_context(&self) -> (b: bool)
        ensures
            b == (self.spec_kind() == TryCurrentErrorKind::NoContext),
    {
        match self.kind {
            TryCurrentErrorKind::NoContext => true,
            TryCurrentErrorKind::ThreadLocalDestroyed => false,
        }
    }

    /// Whether the thread-local slot that holds the runtime had been
    /// destroyed, which happens only in destructors of other thread-locals.
    pub fn is_thread_local_destroyed(&self) -> (b: bool)
        ensures
            b == (self.spec_kind() == TryCurrentErrorKind::ThreadLocalDestroyed),
    {
        match self.kind {
            TryCurrentErrorKind::NoContext => false,
            TryCurrentErrorKind::ThreadLocalDestroyed => true,
        }
    }
}

/// The current runtime as read from the thread-local slot: `None` where the
/// slot has been destroyed, `Some(None)` where no runtime has been entered,
/// and `Some(Some(handle))` otherwise.
pub fn try_current_from<H>(slot: Option<Option<H>>) -> (r: Result<H, TryCurrentError>)
    ensures
        match slot {
            Some(Some(h)) => r == Ok::<H, TryCurrentError>(h),
            Some(None) => r matches Err(e) && e.spec_kind() == TryCurrentErrorKind::NoContext,
            None => r matches Err(e) && e.spec_kind() == TryCurrentErrorKind::ThreadLocalDestroyed,
        },
{
    match slot {
        Some(Some(handle)) => Ok(handle),
        Some(None) => Err(TryCurrentError::new_no_context()),
        None => Err(TryCurrentError::new_thread_local_destroyed()),
    }
}

} // verus!

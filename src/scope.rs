//! The shared cancellation scope: cancelled once, by whichever cause comes first.
use vstd::prelude::*;

verus! {

/// What cancelled the scope.
#[derive(Clone, Copy, Debug, PartialEq, Eq, Structural)]
pub enum CancelCause {
    /// The process was asked to terminate.
    Terminate,
    /// The process was interrupted.
    Interrupt,
    /// One of the scope's tasks finished.
    TaskExited,
}

/// A cancellation scope: not cancelled, or cancelled with its first cause.
#[derive(Debug)]
pub struct CancellationScope {
    cause: Option<CancelCause>,
}

impl CancellationScope {
    pub closed spec fn cause_view(&self) -> Option<CancelCause> {
        self.cause
    }

    /// A scope that is not cancelled.
    pub fn new() -> (r: Self)
        ensures
            r.cause_view() is None,
    {
        CancellationScope { cause: None }
    }

    /// Cancels the scope. Only the first call counts: it returns `true` and
    /// records its cause; later calls return `false` and change nothing.
    pub fn cancel(&mut self, cause: CancelCause) -> (first: bool)
        ensures
            first == old(self).cause_view() is None,
            first ==> final(self).cause_view() == Some(cause),
            !first ==> final(self).cause_view() == old(self).cause_view(),
    {
        if self.cause.is_some() {
            false
        } else {
            self.cause = Some(cause);
            true
        }
    }

    /// Whether the scope was cancelled.
    pub fn is_cancelled(&self) -> (r: bool)
        ensures
            r == self.cause_view() is Some,
    {
        self.cause.is_some()
    }

    /// The cause of the cancellation, if any.
    pub fn cause(&self) -> (r: Option<CancelCause>)
        ensures
            r == self.cause_view(),
    {
        self.cause
    }
}

} // verus!

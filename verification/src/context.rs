//! The cancellation context of one pipeline run.
//!
//! A context is the abort signal as one task sees it at one moment: whether
//! the run has been aborted since the context was made. It is handed to
//! every stage, and every unit of background work asks it at each point
//! where that work would wait.

use crate::spsc::Poll;
use vstd::prelude::*;

verus! {

/// The abort signal of a pipeline run.
#[derive(Debug, Clone, Copy, PartialEq, Eq, Structural)]
pub struct Context {
    aborted: bool,
}

impl Context {
    /// Whether the abort has fired.
    pub closed spec fn aborted(&self) -> bool {
        self.aborted
    }

    /// What `fuse_abort` answers for a pending operation in state `inner`:
    /// the abort wins over a result that is ready at the same moment.
    pub open spec fn fused<T>(&self, inner: Poll<T>) -> Poll<Option<T>> {
        if self.aborted() {
            Poll::Ready(None)
        } else {
            match inner {
                Poll::Ready(value) => Poll::Ready(Some(value)),
                Poll::Pending => Poll::Pending,
            }
        }
    }

    /// The context of a run that has not been aborted.
    pub fn new() -> (cx: Self)
        ensures
            !cx.aborted(),
    {
        Context { aborted: false }
    }

    /// Fires the abort. There is no way back.
    pub fn abort(&mut self)
        ensures
            final(self).aborted(),
    {
        self.aborted = true;
    }

    /// Whether the abort has fired.
    pub fn has_changed(&self) -> (changed: bool)
        ensures
            changed == self.aborted(),
    {
        self.aborted
    }

    /// Races the abort against an operation that may have to wait: `None`
    /// once the abort has fired, whatever the operation has reached;
    /// otherwise the operation's result when it is ready. The caller drops
    /// the operation as soon as the answer is `Ready`.
    pub fn fuse_abort<T>(&self, inner: Poll<T>) -> (out: Poll<Option<T>>)
        ensures
            out == self.fused(inner),
    {
        if self.aborted {
            Poll::Ready(None)
        } else {
            match inner {
                Poll::Ready(value) => Poll::Ready(Some(value)),
                Poll::Pending => Poll::Pending,
            }
        }
    }
}

impl Default for Context {
    fn default() -> (cx: Self)
        ensures
            !cx.aborted(),
    {
        Self::new()
    }
}

} // verus!

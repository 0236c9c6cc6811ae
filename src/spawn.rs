use vstd::prelude::*;
use futures::future::AbortHandle;

verus! {

/// Declares futures' `AbortHandle`, the cancellation primitive that a spawn
/// handle carries; Verus sees nothing inside it.
#[verifier::external_type_specification]
#[verifier::external_body]
pub struct ExAbortHandle(AbortHandle);

/// Relies on futures' `AbortHandle::abort`: it marks the task that the handle
/// belongs to as aborted, and returns nothing.
pub assume_specification[ AbortHandle::abort ](h: &AbortHandle);

/// The cancellation handle of a task spawned on an asynchronous runtime.
/// It keeps its own closed flag, so cancelling twice aborts once.
pub struct SpawnHandle {
    pub handle: AbortHandle,
    is_closed: bool,
}

impl SpawnHandle {
    pub closed spec fn closed(&self) -> bool {
        self.is_closed
    }

    pub closed spec fn abort_handle(&self) -> AbortHandle {
        self.handle
    }

    /// An open handle over `handle`.
    pub fn new(handle: AbortHandle) -> (r: Self)
        ensures
            !r.closed(),
            r.abort_handle() == handle,
    {
        SpawnHandle { handle, is_closed: false }
    }

    /// Aborts the task, the first time only; the handle is closed after.
    pub fn unsubscribe(&mut self)
        ensures
            final(self).closed(),
            final(self).abort_handle() == old(self).abort_handle(),
    {
        if !self.is_closed {
            self.is_closed = true;
            self.handle.abort();
        }
    }

    /// Whether the handle has been cancelled.
    pub fn is_closed(&self) -> (r: bool)
        ensures
            r == self.closed(),
    {
        self.is_closed
    }
}

} // verus!

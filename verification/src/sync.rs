//! Cooperative cancellation of a search that other threads may call off.

use std::sync::atomic::AtomicBool;
use std::sync::atomic::Ordering;
use std::sync::Arc;
use vstd::prelude::*;

verus! {

/// What an operation answers when it finds that it was called off.
#[derive(Clone, Copy, Debug, PartialEq, Eq, Structural)]
pub struct Cancelled;

/// Turns a reading of the flag into the answer to a check: `Err(Cancelled)`
/// if the flag was raised, `Ok(())` if it was not.
pub fn refuse_if(cancelled: bool) -> (r: Result<(), Cancelled>)
    ensures
        r is Err <==> cancelled,
{
    if cancelled {
        Err(Cancelled)
    } else {
        Ok(())
    }
}

/// A flag that the clones of one handle share. It starts lowered, any holder
/// can raise it, and nothing lowers it again. Other threads may raise it at
/// any moment, so no contract says what a reading returns.
pub struct CancelHandle(Arc<AtomicBool>);

impl CancelHandle {
    /// Creates a handle whose flag nobody else holds yet.
    pub fn new() -> CancelHandle {
        CancelHandle(Arc::new(AtomicBool::new(false)))
    }

    /// Reads the flag.
    pub fn is_cancelled(&self) -> bool {
        self.0.load(Ordering::SeqCst)
    }

    /// Answers `Err(Cancelled)` if the flag is raised when it is read, and
    /// `Ok(())` if it is not.
    pub fn assert_not_cancelled(&self) -> (r: Result<(), Cancelled>) {
        refuse_if(self.is_cancelled())
    }

    /// Raises the flag for every clone of this handle.
    pub fn cancel(&self) {
        self.0.store(true, Ordering::SeqCst)
    }
}

impl Clone for CancelHandle {
    /// Another handle on the same flag.
    fn clone(&self) -> (handle: CancelHandle)
        ensures
            handle == *self,
    {
        CancelHandle(self.0.clone())
    }
}

/// A strategy together with the handle that can call its user off.
pub struct CancellableStrategy<S> {
    pub strategy: S,
    pub handle: CancelHandle,
}

impl<S> CancellableStrategy<S> {
    /// Pairs a strategy with a handle.
    pub fn new(strategy: S, handle: CancelHandle) -> (c: CancellableStrategy<S>)
        ensures
            c.strategy == strategy,
            c.handle == handle,
    {
        CancellableStrategy { strategy, handle }
    }
}

} // verus!

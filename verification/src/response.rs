//! Failures and shim responses.
//!
//! The tracker never panics: every fatal condition is reported as a value,
//! and the embedding that installed the tracker as the real allocator decides
//! how to raise it (typically by panicking on the offending thread).

use vstd::prelude::*;

verus! {

/// A thread-fatal failure reported by the tracker.
#[derive(Clone, Copy, Debug, PartialEq, Eq, Structural)]
pub enum Failure {
    /// An allocator request arrived while the calling thread's protection
    /// level was positive.  Carries the requested size and the level at the
    /// time of the violation.
    Violation { size: usize, level: usize },
    /// `exit_protected` was called with the level already at zero: the thread
    /// exited protected regions more often than it entered them.
    OverExit,
    /// `release_internal_alloc` was called by a thread that is not the
    /// recorded reentrancy owner.  This is a bug in the tracker's embedding,
    /// not a user violation.
    GuardConsistency,
}

/// What the embedding must do with one allocation request.
#[derive(Clone, Copy, Debug, PartialEq, Eq, Structural)]
pub enum AllocResponse {
    /// Pass through: perform the real allocation and return its address.
    Allocate,
    /// The request is a violation: no memory is returned; raise the failure
    /// on the calling thread.  Carries the requested size and the protection
    /// level at the time of the violation.
    Violation { size: usize, level: usize },
    /// The reentrancy guard is held by another thread: retry the request.
    /// In the running system this is one turn of the guard's busy-wait.
    Busy,
}

/// What the embedding must do with one deallocation request.
#[derive(Clone, Copy, Debug, PartialEq, Eq, Structural)]
pub enum DeallocResponse {
    /// Pass through: perform the real deallocation.
    Free,
    /// Perform the real deallocation first, so that no memory is leaked, and
    /// then raise the violation on the calling thread.
    FreeAndViolation { size: usize, level: usize },
    /// The reentrancy guard is held by another thread: retry the request.
    Busy,
}

impl DeallocResponse {
    /// Every response except `Busy` instructs the embedding to perform the
    /// real deallocation, whether or not a violation is raised afterwards.
    pub open spec fn frees(self) -> bool {
        !(self is Busy)
    }
}

} // verus!

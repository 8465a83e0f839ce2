//! The mathematical model of the tracker.
//!
//! [`TrackerView`] is the abstract state that every contract of the library
//! speaks of: the build configuration, the activation flag, the reentrancy
//! owner cell, and a map from thread identifiers to protection levels.  Each
//! operation of the tracker is described by a `*_step` spec function from a
//! view to the next view (and, where applicable, the reported result), and
//! the executable operations promise to follow these functions exactly.

use vstd::prelude::*;

use crate::response::AllocResponse;
use crate::response::DeallocResponse;
use crate::response::Failure;

verus! {

/// Sentinel held by the reentrancy owner cell while no thread owns it.
/// Thread identifiers handed to the tracker must differ from it.
pub const OWNER_NONE: usize = usize::MAX;

/// Abstract state of the tracker.
#[verifier::ext_equal]
pub struct TrackerView {
    /// Build configuration: true in an instrumented (debug) build, false in
    /// a release build, where all guard bookkeeping is inert.
    pub debug: bool,
    /// Whether the shim has serviced at least one allocation request since
    /// process start.  Diagnostic only: it tells misconfiguration (guards
    /// used with no shim installed) apart from normal operation.
    pub active: bool,
    /// The reentrancy owner cell: [`OWNER_NONE`], or the identifier of the
    /// one thread currently allowed to bypass instrumentation while it
    /// materializes per-thread counter storage.
    pub owner: usize,
    /// Protection levels of the threads whose counter storage has been
    /// materialized.  A thread outside the domain is at level zero; its
    /// entry is created lazily by the first operation that touches it.
    /// The running system tears a thread's storage down when the thread
    /// terminates; the model need not observe that, since an absent entry
    /// and a fresh entry are both at level zero.
    pub levels: Map<usize, usize>,
}

impl TrackerView {
    /// The state of a freshly constructed tracker.
    pub open spec fn initial(debug: bool) -> TrackerView {
        TrackerView { debug, active: false, owner: OWNER_NONE, levels: Map::empty() }
    }

    /// Protection level of `tid`: the nesting depth of the guarded regions
    /// the thread is currently inside.  Threads without materialized storage
    /// are at level zero.
    pub open spec fn level_of(self, tid: usize) -> usize {
        if self.levels.dom().contains(tid) {
            self.levels[tid]
        } else {
            0
        }
    }

    /// Guard bookkeeping runs only in a debug build with the shim installed;
    /// otherwise the guard primitives degrade to no-ops.
    pub open spec fn instrumented(self) -> bool {
        self.debug && self.active
    }

    /// This view with the level map replaced.
    pub open spec fn with_levels(self, levels: Map<usize, usize>) -> TrackerView {
        TrackerView { debug: self.debug, active: self.active, owner: self.owner, levels }
    }

    /// This view with `tid`'s storage materialized and set to `level`.
    pub open spec fn with_level(self, tid: usize, level: usize) -> TrackerView {
        self.with_levels(self.levels.insert(tid, level))
    }

    /// This view with the reentrancy owner cell replaced.
    pub open spec fn with_owner(self, owner: usize) -> TrackerView {
        TrackerView { debug: self.debug, active: self.active, owner, levels: self.levels }
    }

    /// This view with the activation flag replaced.
    pub open spec fn with_active(self, active: bool) -> TrackerView {
        TrackerView { debug: self.debug, active, owner: self.owner, levels: self.levels }
    }

    /// Entering a guarded region: a no-op while the thread is unwinding or
    /// while bookkeeping is inert, otherwise one more level of nesting.
    pub open spec fn enter_step(self, tid: usize, panicking: bool) -> TrackerView {
        if panicking || !self.instrumented() {
            self
        } else {
            self.with_level(tid, (self.level_of(tid) + 1) as usize)
        }
    }

    /// Leaving a guarded region: a no-op while unwinding or inert; an
    /// over-exit failure if the level is already zero (the level stays
    /// zero); otherwise one level less of nesting.
    pub open spec fn exit_step(self, tid: usize, panicking: bool) -> (TrackerView, Result<
        (),
        Failure,
    >) {
        if panicking || !self.instrumented() {
            (self, Ok(()))
        } else if self.level_of(tid) == 0 {
            (self.with_level(tid, 0), Err(Failure::OverExit))
        } else {
            (self.with_level(tid, (self.level_of(tid) - 1) as usize), Ok(()))
        }
    }

    /// One attempt to claim the reentrancy guard: it succeeds exactly when
    /// the cell is unowned.  The running system retries until it succeeds.
    pub open spec fn claim_step(self, tid: usize) -> (TrackerView, bool) {
        if self.owner == OWNER_NONE {
            (self.with_owner(tid), true)
        } else {
            (self, false)
        }
    }

    /// Releasing the reentrancy guard: only the recorded owner may clear the
    /// cell; any other caller is an internal consistency failure and the
    /// cell is left untouched.
    pub open spec fn release_step(self, tid: usize) -> (TrackerView, Result<(), Failure>) {
        if self.owner == tid {
            (self.with_owner(OWNER_NONE), Ok(()))
        } else {
            (self, Err(Failure::GuardConsistency))
        }
    }

    /// One allocation request reaching the shim.  The activation flag is set
    /// first in every case.  An unwinding thread and the reentrancy owner
    /// pass through untouched; a request finding the guard held by another
    /// thread must be retried; otherwise the thread's level decides: zero
    /// passes through, positive is a violation and the level is reset to
    /// zero so that cleanup during failure propagation is not itself
    /// flagged.
    pub open spec fn alloc_step(self, tid: usize, panicking: bool, size: usize) -> (TrackerView,
        AllocResponse,
    ) {
        let s = self.with_active(true);
        if panicking || self.owner == tid {
            (s, AllocResponse::Allocate)
        } else if self.owner != OWNER_NONE {
            (s, AllocResponse::Busy)
        } else if s.level_of(tid) == 0 {
            (s.with_level(tid, 0), AllocResponse::Allocate)
        } else {
            (s.with_level(tid, 0), AllocResponse::Violation { size, level: s.level_of(tid) })
        }
    }

    /// One deallocation request reaching the shim.  Same guard and level
    /// logic as an allocation, except that the activation flag is not
    /// touched and that the real deallocation is performed in every
    /// non-retried case, before any violation is raised.
    pub open spec fn dealloc_step(self, tid: usize, panicking: bool, size: usize) -> (TrackerView,
        DeallocResponse,
    ) {
        if panicking || self.owner == tid {
            (self, DeallocResponse::Free)
        } else if self.owner != OWNER_NONE {
            (self, DeallocResponse::Busy)
        } else if self.level_of(tid) == 0 {
            (self.with_level(tid, 0), DeallocResponse::Free)
        } else {
            (
                self.with_level(tid, 0),
                DeallocResponse::FreeAndViolation { size, level: self.level_of(tid) },
            )
        }
    }
}

} // verus!

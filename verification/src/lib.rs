//! A guarded-region allocation tracker.
//!
//! The library lets a thread mark a span of its execution as "must not touch
//! the memory allocator": while the thread's protection level is positive,
//! any allocation or deallocation request reaching the allocator shim is a
//! violation and must be reported loudly.  The tracker keeps one nesting
//! counter per thread, a process-wide activation flag, and a single-owner
//! reentrancy guard that lets the thread currently materializing its own
//! counter storage pass its nested allocations through.
//!
//! All process-wide state lives in one explicit context object,
//! [`allocator::QADAPT`], constructed once at process start.  The embedding
//! that installs the tracker as the real allocator supplies each call with
//! the calling thread's identifier and its unwinding status, performs the
//! real allocations, and raises the failures that the tracker reports.

pub mod allocator;
pub mod laws;
pub mod model;
pub mod response;

pub use allocator::QADAPT;
pub use model::OWNER_NONE;
pub use model::TrackerView;
pub use response::AllocResponse;
pub use response::DeallocResponse;
pub use response::Failure;

//! General properties of the tracker, stated over the model and proved.
//!
//! The executable operations promise to follow the `*_step` functions of
//! [`crate::model`] exactly, so every property proved here about those
//! functions holds of any run of the tracker.

use vstd::prelude::*;

use crate::model::OWNER_NONE;
use crate::model::TrackerView;
use crate::response::AllocResponse;
use crate::response::Failure;

verus! {

/// One guard primitive, as recorded in a call sequence.
pub enum GuardOp {
    Enter,
    Exit,
}

/// Number of enter calls in the sequence.
pub open spec fn enter_count(ops: Seq<GuardOp>) -> nat
    decreases ops.len(),
{
    if ops.len() == 0 {
        0
    } else {
        enter_count(ops.drop_last()) + if ops.last() is Enter {
            1nat
        } else {
            0nat
        }
    }
}

/// Number of exit calls in the sequence.
pub open spec fn exit_count(ops: Seq<GuardOp>) -> nat
    decreases ops.len(),
{
    if ops.len() == 0 {
        0
    } else {
        exit_count(ops.drop_last()) + if ops.last() is Exit {
            1nat
        } else {
            0nat
        }
    }
}

/// Balanced like well-nested brackets: no prefix has more exits than
/// enters, and the whole sequence has equally many.
pub open spec fn balanced(ops: Seq<GuardOp>) -> bool {
    &&& forall|i: int|
        0 <= i <= ops.len() ==> exit_count(#[trigger] ops.take(i)) <= enter_count(ops.take(i))
    &&& enter_count(ops) == exit_count(ops)
}

/// Run a sequence of guard primitives for one thread that is not unwinding.
/// The second component records whether every exit succeeded.
pub open spec fn run_guard_ops(v: TrackerView, tid: usize, ops: Seq<GuardOp>) -> (TrackerView, bool)
    decreases ops.len(),
{
    if ops.len() == 0 {
        (v, true)
    } else {
        let prev = run_guard_ops(v, tid, ops.drop_last());
        if ops.last() is Enter {
            (prev.0.enter_step(tid, false), prev.1)
        } else {
            (prev.0.exit_step(tid, false).0, prev.1 && prev.0.exit_step(tid, false).1 is Ok)
        }
    }
}

/// Running guard primitives moves the calling thread's level by the excess
/// of enters over exits, touches nothing else, and never over-exits, as
/// long as no prefix exits below zero.
proof fn lemma_run_guard_ops_level(v: TrackerView, tid: usize, ops: Seq<GuardOp>)
    requires
        v.instrumented(),
        forall|i: int|
            0 <= i <= ops.len() ==> exit_count(#[trigger] ops.take(i)) <= v.level_of(tid)
                + enter_count(ops.take(i)),
        v.level_of(tid) + enter_count(ops) <= usize::MAX,
    ensures
        run_guard_ops(v, tid, ops).1,
        run_guard_ops(v, tid, ops).0.level_of(tid) == v.level_of(tid) + enter_count(ops)
            - exit_count(ops),
        run_guard_ops(v, tid, ops).0.debug == v.debug,
        run_guard_ops(v, tid, ops).0.active == v.active,
        run_guard_ops(v, tid, ops).0.owner == v.owner,
        forall|t: usize| t != tid ==> run_guard_ops(v, tid, ops).0.level_of(t) == v.level_of(t),
    decreases ops.len(),
{
    if ops.len() > 0 {
        let dl = ops.drop_last();
        assert forall|i: int|
            0 <= i <= dl.len() implies exit_count(#[trigger] dl.take(i)) <= v.level_of(tid)
            + enter_count(dl.take(i)) by {
            assert(dl.take(i) =~= ops.take(i));
        }
        lemma_run_guard_ops_level(v, tid, dl);
        let prev = run_guard_ops(v, tid, dl);
        assert(ops.take(ops.len() as int) =~= ops);
        assert(ops.take(ops.len() as int - 1) =~= dl);
        if ops.last() is Exit {
            assert(exit_count(ops) <= v.level_of(tid) + enter_count(ops));
            assert(prev.0.level_of(tid) > 0);
        }
    }
}

/// Any balanced sequence of enter and exit calls by one thread, run while
/// the tracker is instrumenting, leaves the thread's protection level
/// exactly where it started — at zero for a thread outside every guarded
/// region — and never reports an over-exit along the way.
///
/// The bound on the enter count is a machine limit: the nesting counter is
/// a finite-width integer.
pub proof fn lemma_balanced_guards_restore_level(v: TrackerView, tid: usize, ops: Seq<GuardOp>)
    requires
        v.instrumented(),
        balanced(ops),
        v.level_of(tid) + enter_count(ops) <= usize::MAX,
    ensures
        run_guard_ops(v, tid, ops).1,
        run_guard_ops(v, tid, ops).0.level_of(tid) == v.level_of(tid),
{
    assert forall|i: int|
        0 <= i <= ops.len() implies exit_count(#[trigger] ops.take(i)) <= v.level_of(tid)
        + enter_count(ops.take(i)) by {
        assert(exit_count(ops.take(i)) <= enter_count(ops.take(i)));
    }
    lemma_run_guard_ops_level(v, tid, ops);
    assert(ops.take(ops.len() as int) =~= ops);
}

/// Leaving a guarded region with the level already at zero always reports
/// the over-exit failure, and the level stays at zero.
pub proof fn lemma_over_exit(v: TrackerView, tid: usize)
    requires
        v.instrumented(),
        v.level_of(tid) == 0,
    ensures
        v.exit_step(tid, false).1 == Err::<(), Failure>(Failure::OverExit),
        v.exit_step(tid, false).0.level_of(tid) == 0,
{
}

/// While the reentrancy guard is free and the calling thread is not
/// unwinding, an allocation request passes through exactly when the
/// thread's level is zero, and is a violation exactly when the level is
/// positive — carrying the requested size and that level — after which the
/// level is reset to zero, so that a subsequent independent sequence
/// behaves normally.
pub proof fn lemma_allocate_by_level(v: TrackerView, tid: usize, size: usize)
    requires
        v.owner == OWNER_NONE,
        tid != OWNER_NONE,
    ensures
        v.level_of(tid) == 0 ==> v.alloc_step(tid, false, size).1 == AllocResponse::Allocate,
        v.level_of(tid) > 0 ==> v.alloc_step(tid, false, size).1 == (AllocResponse::Violation {
            size,
            level: v.level_of(tid),
        }),
        v.alloc_step(tid, false, size).0.level_of(tid) == 0,
        v.alloc_step(tid, false, size).0.active,
{
}

/// A deallocation request is never dropped: unless the reentrancy guard is
/// held by another thread — in which case the request is retried — the
/// response instructs the embedding to perform the real deallocation, also
/// when it additionally raises a violation.
pub proof fn lemma_deallocate_frees(v: TrackerView, tid: usize, panicking: bool, size: usize)
    requires
        panicking || v.owner == OWNER_NONE || v.owner == tid,
    ensures
        v.dealloc_step(tid, panicking, size).1.frees(),
{
}

/// Threads keep independent protection levels: one thread entering or
/// leaving a guarded region, or having an allocator request serviced,
/// changes no other thread's level; and one thread entering a region does
/// not change the response any other thread gets for an allocation request.
pub proof fn lemma_thread_independence(
    v: TrackerView,
    a: usize,
    b: usize,
    panicking: bool,
    size: usize,
)
    requires
        a != b,
    ensures
        v.enter_step(a, panicking).level_of(b) == v.level_of(b),
        v.exit_step(a, panicking).0.level_of(b) == v.level_of(b),
        v.alloc_step(a, panicking, size).0.level_of(b) == v.level_of(b),
        v.dealloc_step(a, panicking, size).0.level_of(b) == v.level_of(b),
        v.enter_step(a, false).alloc_step(b, false, size).1 == v.alloc_step(b, false, size).1,
{
}

/// Every thread of a fresh tracker is at level zero.
pub proof fn lemma_initial_levels_zero(debug: bool)
    ensures
        all_levels_zero(TrackerView::initial(debug)),
{
}

/// Every recorded and unrecorded thread is outside all guarded regions.
pub open spec fn all_levels_zero(v: TrackerView) -> bool {
    forall|t: usize| #![auto] v.level_of(t) == 0
}

/// In a release build the tracker is inert.  Starting from any state with
/// every level at zero — as the initial state is — entering and leaving
/// guarded regions are exact no-ops, allocator requests never report a
/// violation, every level stays at zero (so `protection_level` always
/// returns zero), and `is_active` reports false.
pub proof fn lemma_release_build_inert(v: TrackerView, tid: usize, panicking: bool, size: usize)
    requires
        !v.debug,
        all_levels_zero(v),
    ensures
        !v.instrumented(),
        v.enter_step(tid, panicking) == v,
        v.exit_step(tid, panicking) == (v, Ok::<(), Failure>(())),
        !(v.alloc_step(tid, panicking, size).1 is Violation),
        all_levels_zero(v.alloc_step(tid, panicking, size).0),
        !v.alloc_step(tid, panicking, size).0.debug,
        !(v.dealloc_step(tid, panicking, size).1 is FreeAndViolation),
        all_levels_zero(v.dealloc_step(tid, panicking, size).0),
        !v.dealloc_step(tid, panicking, size).0.debug,
{
    let a = v.alloc_step(tid, panicking, size).0;
    assert forall|t: usize| #![auto] a.level_of(t) == 0 by {
        assert(v.level_of(t) == 0);
    }
    let d = v.dealloc_step(tid, panicking, size).0;
    assert forall|t: usize| #![auto] d.level_of(t) == 0 by {
        assert(v.level_of(t) == 0);
    }
}

} // verus!

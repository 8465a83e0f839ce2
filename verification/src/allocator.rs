//! The tracker itself: one explicit context object holding all state.
//!
//! [`QADAPT`] owns the process-wide activation flag, the reentrancy owner
//! cell, and the per-thread protection levels, materialized lazily in an
//! association list keyed by thread identifier.  The embedding constructs
//! one tracker at process start, serializes access to it, and calls these
//! operations with the calling thread's identifier and unwinding status.

use vstd::prelude::*;

use crate::model::OWNER_NONE;
use crate::model::TrackerView;
use crate::response::AllocResponse;
use crate::response::DeallocResponse;
use crate::response::Failure;

verus! {

/// The guarded-region allocation tracker.
pub struct QADAPT {
    /// Build configuration: instrumented (debug) or inert (release).
    debug: bool,
    /// Set once the shim has serviced an allocation request.
    active: bool,
    /// The reentrancy owner cell; [`OWNER_NONE`] while unowned.
    owner: usize,
    /// Association list of (thread identifier, protection level), one entry
    /// per thread whose storage has been materialized.
    levels: Vec<(usize, usize)>,
}

/// The map described by an association list, later entries taking
/// precedence.  The tracker's invariant keeps the keys distinct, so
/// precedence never actually decides.
spec fn levels_map(s: Seq<(usize, usize)>) -> Map<usize, usize>
    decreases s.len(),
{
    if s.len() == 0 {
        Map::empty()
    } else {
        levels_map(s.drop_last()).insert(s.last().0, s.last().1)
    }
}

/// Pairwise distinct keys.
spec fn distinct_keys(s: Seq<(usize, usize)>) -> bool {
    forall|i: int, j: int| 0 <= i < j < s.len() ==> s[i].0 != s[j].0
}

proof fn lemma_levels_map_dom(s: Seq<(usize, usize)>, tid: usize)
    ensures
        levels_map(s).dom().contains(tid) <==> (exists|i: int|
            0 <= i < s.len() && s[i].0 == tid),
    decreases s.len(),
{
    if s.len() > 0 {
        lemma_levels_map_dom(s.drop_last(), tid);
        if s.last().0 == tid {
            assert(s[s.len() - 1].0 == tid);
        } else {
            if levels_map(s).dom().contains(tid) {
                let i = choose|i: int| 0 <= i < s.drop_last().len() && s.drop_last()[i].0 == tid;
                assert(s[i].0 == tid);
            }
            if exists|i: int| 0 <= i < s.len() && s[i].0 == tid {
                let i = choose|i: int| 0 <= i < s.len() && s[i].0 == tid;
                assert(i < s.len() - 1);
                assert(s.drop_last()[i].0 == tid);
            }
        }
    }
}

proof fn lemma_levels_map_value(s: Seq<(usize, usize)>, i: int)
    requires
        distinct_keys(s),
        0 <= i < s.len(),
    ensures
        levels_map(s).dom().contains(s[i].0),
        levels_map(s)[s[i].0] == s[i].1,
    decreases s.len(),
{
    if i < s.len() - 1 {
        assert(s.drop_last()[i] == s[i]);
        lemma_levels_map_value(s.drop_last(), i);
        assert(s.last().0 != s[i].0);
    }
}

proof fn lemma_levels_map_update(s: Seq<(usize, usize)>, i: int, v: usize)
    requires
        distinct_keys(s),
        0 <= i < s.len(),
    ensures
        levels_map(s.update(i, (s[i].0, v))) == levels_map(s).insert(s[i].0, v),
    decreases s.len(),
{
    let t = s.update(i, (s[i].0, v));
    if i == s.len() - 1 {
        assert(t.drop_last() =~= s.drop_last());
        assert(levels_map(t) =~= levels_map(s).insert(s[i].0, v));
    } else {
        assert(t.drop_last() =~= s.drop_last().update(i, (s[i].0, v)));
        lemma_levels_map_update(s.drop_last(), i, v);
        assert(s.drop_last()[i] == s[i]);
        assert(s.last().0 != s[i].0);
        assert(levels_map(t) =~= levels_map(s).insert(s[i].0, v));
    }
}

proof fn lemma_levels_map_push(s: Seq<(usize, usize)>, tid: usize, v: usize)
    ensures
        levels_map(s.push((tid, v))) == levels_map(s).insert(tid, v),
{
    assert(s.push((tid, v)).drop_last() =~= s);
    assert(s.push((tid, v)).last() == (tid, v));
}

impl View for QADAPT {
    type V = TrackerView;

    closed spec fn view(&self) -> TrackerView {
        TrackerView {
            debug: self.debug,
            active: self.active,
            owner: self.owner,
            levels: levels_map(self.levels@),
        }
    }
}

impl QADAPT {
    #[verifier::type_invariant]
    spec fn wf(self) -> bool {
        &&& distinct_keys(self.levels@)
        &&& forall|i: int| 0 <= i < self.levels@.len() ==> self.levels@[i].0 != OWNER_NONE
    }

    /// Construct the tracker, once, at process start.  `debug` is the build
    /// configuration: with `false` (a release build) every operation is a
    /// no-op or a pass-through and no failure is ever reported.
    pub fn new(debug: bool) -> (q: QADAPT)
        ensures
            q@ == TrackerView::initial(debug),
    {
        let q = QADAPT { debug, active: false, owner: OWNER_NONE, levels: Vec::new() };
        proof {
            assert(q@ =~= TrackerView::initial(debug));
        }
        q
    }

    /// Whether the tracker is installed and instrumenting: true once the
    /// shim has serviced an allocation request, and never in a release
    /// build.
    pub fn is_active(&self) -> (r: bool)
        ensures
            r == self@.instrumented(),
    {
        if self.debug {
            self.active
        } else {
            false
        }
    }

    /// The calling thread's protection level, for diagnostics and tests.
    /// Reading does not materialize storage: an unknown thread is at level
    /// zero.
    pub fn protection_level(&self, tid: usize) -> (r: usize)
        ensures
            r == self@.level_of(tid),
    {
        proof {
            use_type_invariant(&*self);
        }
        let n: usize = self.levels.len();
        let mut i: usize = 0;
        while i < n
            invariant
                n == self.levels@.len(),
                i <= n,
                distinct_keys(self.levels@),
                forall|j: int| 0 <= j < i ==> self.levels@[j].0 != tid,
                self@.levels == levels_map(self.levels@),
            decreases n - i,
        {
            if self.levels[i].0 == tid {
                let r = self.levels[i].1;
                proof {
                    lemma_levels_map_value(self.levels@, i as int);
                }
                return r;
            }
            i = i + 1;
        }
        proof {
            lemma_levels_map_dom(self.levels@, tid);
        }
        0
    }

    /// Materialize `tid`'s storage and set its level to `v`.
    fn set_level(&mut self, tid: usize, v: usize)
        requires
            tid != OWNER_NONE,
        ensures
            final(self)@ == old(self)@.with_level(tid, v),
    {
        proof {
            use_type_invariant(&*self);
        }
        let ghost orig = self.levels@;
        let mut lv: Vec<(usize, usize)> = Vec::new();
        std::mem::swap(&mut lv, &mut self.levels);
        let n: usize = lv.len();
        let mut i: usize = 0;
        while i < n
            invariant
                n == lv@.len(),
                i <= n,
                lv@ == orig,
                distinct_keys(orig),
                forall|k: int| 0 <= k < orig.len() ==> orig[k].0 != OWNER_NONE,
                forall|j: int| 0 <= j < i ==> orig[j].0 != tid,
                self.debug == old(self).debug,
                self.active == old(self).active,
                self.owner == old(self).owner,
                self.levels@.len() == 0,
                old(self)@.levels == levels_map(orig),
            decreases n - i,
        {
            if lv[i].0 == tid {
                lv.set(i, (tid, v));
                proof {
                    lemma_levels_map_update(orig, i as int, v);
                    assert forall|a: int, b: int| 0 <= a < b < lv@.len() implies lv@[a].0
                        != lv@[b].0 by {
                        assert(orig[a].0 != orig[b].0);
                    }
                }
                self.levels = lv;
                proof {
                    assert(self@ =~= old(self)@.with_level(tid, v));
                }
                return;
            }
            i = i + 1;
        }
        lv.push((tid, v));
        proof {
            lemma_levels_map_push(orig, tid, v);
            assert forall|a: int, b: int| 0 <= a < b < lv@.len() implies lv@[a].0 != lv@[b].0 by {
                if b < orig.len() {
                    assert(orig[a].0 != orig[b].0);
                } else {
                    assert(lv@[b].0 == tid);
                    assert(orig[a].0 != tid);
                }
            }
        }
        self.levels = lv;
        proof {
            assert(self@ =~= old(self)@.with_level(tid, v));
        }
    }

    /// Enter a guarded region: one more level of nesting for the calling
    /// thread.  A no-op while the thread is unwinding from an earlier
    /// failure, and while the tracker is not instrumenting (never installed,
    /// or a release build), so that nothing is tracked that nobody checks.
    /// Never fails.
    ///
    /// The level bound is a machine limit: the nesting counter is a
    /// finite-width integer and must not wrap.
    pub fn enter_protected(&mut self, tid: usize, panicking: bool)
        requires
            tid != OWNER_NONE,
            old(self)@.level_of(tid) < usize::MAX,
        ensures
            final(self)@ == old(self)@.enter_step(tid, panicking),
    {
        if panicking || !self.is_active() {
            return;
        }
        let cur = self.protection_level(tid);
        self.set_level(tid, cur + 1);
    }

    /// Leave a guarded region.  A no-op while unwinding or while not
    /// instrumenting.  Exiting more often than entering is an over-exit
    /// failure; the level stays at zero.
    pub fn exit_protected(&mut self, tid: usize, panicking: bool) -> (r: Result<(), Failure>)
        requires
            tid != OWNER_NONE,
        ensures
            final(self)@ == old(self)@.exit_step(tid, panicking).0,
            r == old(self)@.exit_step(tid, panicking).1,
    {
        if panicking || !self.is_active() {
            return Ok(());
        }
        let cur = self.protection_level(tid);
        if cur == 0 {
            self.set_level(tid, 0);
            Err(Failure::OverExit)
        } else {
            self.set_level(tid, cur - 1);
            Ok(())
        }
    }

    /// Whether an allocator request from `tid` bypasses all bookkeeping:
    /// granted to a thread that is already unwinding, so that destructors
    /// running during unwind cannot raise a second failure, and to the
    /// recorded reentrancy owner, whose nested allocations materialize the
    /// tracker's own storage.
    pub fn alloc_immediate(&self, tid: usize, panicking: bool) -> (r: bool)
        ensures
            r == (panicking || self@.owner == tid),
    {
        panicking || self.owner == tid
    }

    /// One attempt to claim the reentrancy guard for `tid`: succeeds exactly
    /// when the cell is unowned.  In the running system the caller retries
    /// until it succeeds; contention is rare and brief, so a busy-wait is
    /// the intended blocking strategy.
    pub fn claim_internal_alloc(&mut self, tid: usize) -> (r: bool)
        requires
            tid != OWNER_NONE,
        ensures
            final(self)@ == old(self)@.claim_step(tid).0,
            r == old(self)@.claim_step(tid).1,
    {
        proof {
            use_type_invariant(&*self);
        }
        if self.owner == OWNER_NONE {
            self.owner = tid;
            true
        } else {
            false
        }
    }

    /// Release the reentrancy guard.  Only the recorded owner may clear the
    /// cell; any other caller gets the internal consistency failure and the
    /// cell is left untouched.
    pub fn release_internal_alloc(&mut self, tid: usize) -> (r: Result<(), Failure>)
        requires
            tid != OWNER_NONE,
        ensures
            final(self)@ == old(self)@.release_step(tid).0,
            r == old(self)@.release_step(tid).1,
    {
        proof {
            use_type_invariant(&*self);
        }
        if self.owner == tid {
            self.owner = OWNER_NONE;
            Ok(())
        } else {
            Err(Failure::GuardConsistency)
        }
    }

    /// One allocation request reaching the shim: record activation, pass an
    /// unwinding thread or the reentrancy owner straight through, otherwise
    /// read the thread's level under the guard and decide.  A positive level
    /// is a violation: the level is reset to zero first, so that allocations
    /// made while the failure propagates are not themselves flagged, and no
    /// memory is returned.
    pub fn allocate(&mut self, tid: usize, panicking: bool, size: usize) -> (r: AllocResponse)
        requires
            tid != OWNER_NONE,
        ensures
            final(self)@ == old(self)@.alloc_step(tid, panicking, size).0,
            r == old(self)@.alloc_step(tid, panicking, size).1,
    {
        proof {
            use_type_invariant(&*self);
        }
        self.active = true;
        if self.alloc_immediate(tid, panicking) {
            return AllocResponse::Allocate;
        }
        if !self.claim_internal_alloc(tid) {
            return AllocResponse::Busy;
        }
        let level = self.protection_level(tid);
        self.set_level(tid, level);
        let _ = self.release_internal_alloc(tid);
        if level == 0 {
            proof {
                assert(self@ =~= old(self)@.alloc_step(tid, panicking, size).0);
            }
            AllocResponse::Allocate
        } else {
            self.set_level(tid, 0);
            proof {
                assert(self@ =~= old(self)@.alloc_step(tid, panicking, size).0);
            }
            AllocResponse::Violation { size, level }
        }
    }

    /// One deallocation request reaching the shim: same guard and level
    /// logic as an allocation, but the embedding performs the real
    /// deallocation in every non-retried case, before any violation is
    /// raised, so that no memory is leaked.
    pub fn deallocate(&mut self, tid: usize, panicking: bool, size: usize) -> (r: DeallocResponse)
        requires
            tid != OWNER_NONE,
        ensures
            final(self)@ == old(self)@.dealloc_step(tid, panicking, size).0,
            r == old(self)@.dealloc_step(tid, panicking, size).1,
    {
        if self.alloc_immediate(tid, panicking) {
            return DeallocResponse::Free;
        }
        if !self.claim_internal_alloc(tid) {
            return DeallocResponse::Busy;
        }
        let level = self.protection_level(tid);
        self.set_level(tid, level);
        let _ = self.release_internal_alloc(tid);
        if level == 0 {
            proof {
                assert(self@ =~= old(self)@.dealloc_step(tid, panicking, size).0);
            }
            DeallocResponse::Free
        } else {
            self.set_level(tid, 0);
            proof {
                assert(self@ =~= old(self)@.dealloc_step(tid, panicking, size).0);
            }
            DeallocResponse::FreeAndViolation { size, level }
        }
    }

    /// Evaluate an expression inside a guarded region: enter, run the
    /// closure, exit, and yield the closure's value.  The matching exit
    /// never over-exits.
    ///
    /// Known limitation, preserved deliberately: if control leaves the
    /// closure by unwinding, the matching exit is skipped and the thread's
    /// level stays elevated for all subsequent code on that thread, until
    /// something else resets it or a (possibly spurious) violation is
    /// raised later.
    pub fn protected<T, F: FnOnce() -> T>(&mut self, tid: usize, panicking: bool, f: F) -> (r: T)
        requires
            tid != OWNER_NONE,
            old(self)@.level_of(tid) < usize::MAX,
            call_requires(f, ()),
        ensures
            call_ensures(f, (), r),
            final(self)@ == old(self)@.enter_step(tid, panicking).exit_step(tid, panicking).0,
            old(self)@.enter_step(tid, panicking).exit_step(tid, panicking).1 is Ok,
    {
        self.enter_protected(tid, panicking);
        let r = f();
        let _ = self.exit_protected(tid, panicking);
        r
    }
}

} // verus!

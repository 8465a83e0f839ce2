//! Guarded functions written as the code-generation collaborator would emit
//! them: enter on entry, exit before every return path.

use qadapt::AllocResponse;
use qadapt::QADAPT;
use std::io;

const TID: usize = 7;

/// Forward one allocation request to the tracker as the installed shim
/// would, panicking on the offending thread when it reports a violation.
fn request_alloc(q: &mut QADAPT, tid: usize, size: usize) {
    match q.allocate(tid, false, size) {
        AllocResponse::Allocate => {}
        AllocResponse::Violation { size, level } => {
            panic!("Unexpected allocation for size {}, protection level: {}", size, level)
        }
        AllocResponse::Busy => unreachable!(),
    }
}

/// A tracker in the instrumented configuration that has already serviced
/// one allocation, as it has by the time any test body runs.
fn activated() -> QADAPT {
    let mut q = QADAPT::new(true);
    request_alloc(&mut q, TID, 1);
    assert!(q.is_active());
    q
}

fn no_allocate(q: &mut QADAPT) {
    q.enter_protected(TID, false);
    let _v: Vec<()> = Vec::with_capacity(0);
    q.exit_protected(TID, false).unwrap();
}

#[test]
fn macro_no_allocate() {
    let mut q = activated();
    no_allocate(&mut q);
}

fn allocates(q: &mut QADAPT) {
    q.enter_protected(TID, false);
    assert_eq!(q.protection_level(TID), 1);
    // Boxing the vector forces a heap allocation inside the guarded region.
    let mut v: Vec<i32> = Vec::new();
    request_alloc(q, TID, std::mem::size_of::<Vec<i32>>());
    v.push(1);
    q.exit_protected(TID, false).unwrap();
}

#[test]
#[should_panic]
fn macro_allocates() {
    let mut q = activated();
    allocates(&mut q);
}

fn no_allocate_ret(q: &mut QADAPT) -> bool {
    q.enter_protected(TID, false);
    q.exit_protected(TID, false).unwrap();
    return true;
}

#[test]
fn macro_return() {
    let mut q = activated();
    assert!(no_allocate_ret(&mut q));
}

fn no_allocate_implicit_ret(q: &mut QADAPT) -> bool {
    q.enter_protected(TID, false);
    let ret = true;
    q.exit_protected(TID, false).unwrap();
    ret
}

#[test]
fn macro_implicit_return() {
    let mut q = activated();
    assert!(no_allocate_implicit_ret(&mut q));
}

fn no_allocate_arg(q: &mut QADAPT, b: bool) -> bool {
    q.enter_protected(TID, false);
    let ret = b;
    q.exit_protected(TID, false).unwrap();
    ret
}

#[test]
fn macro_allocate_arg() {
    let mut q = activated();
    no_allocate_arg(&mut q, true);
    no_allocate_arg(&mut q, false);
}

fn no_allocate_args(q: &mut QADAPT, _b: bool, _u: usize, i: i64) -> i64 {
    q.enter_protected(TID, false);
    let ret = i;
    q.exit_protected(TID, false).unwrap();
    ret
}

#[test]
fn macro_allocate_args() {
    let mut q = activated();
    no_allocate_args(&mut q, true, 0, -1);
    no_allocate_args(&mut q, false, 4, -90);
}

fn return_result(
    q: &mut QADAPT,
    r: Result<usize, io::Error>,
) -> Result<Result<usize, io::Error>, ()> {
    q.enter_protected(TID, false);
    let ret = Ok(r);
    q.exit_protected(TID, false).unwrap();
    ret
}

#[test]
fn macro_return_result() {
    let mut q = activated();
    return_result(&mut q, Ok(16)).unwrap().unwrap();
}

fn branching_return(q: &mut QADAPT, a: bool, b: bool, c: bool) -> u8 {
    q.enter_protected(TID, false);
    if a {
        if b {
            if c {
                q.exit_protected(TID, false).unwrap();
                return 1;
            } else {
                q.exit_protected(TID, false).unwrap();
                return 2;
            }
        } else {
            if c {
                q.exit_protected(TID, false).unwrap();
                return 3;
            } else {
                q.exit_protected(TID, false).unwrap();
                return 4;
            }
        }
    } else {
        if b {
            if c {
                q.exit_protected(TID, false).unwrap();
                return 5;
            } else {
                q.exit_protected(TID, false).unwrap();
                return 6;
            }
        } else {
            if c {
                q.exit_protected(TID, false).unwrap();
                return 7;
            } else {
                q.exit_protected(TID, false).unwrap();
                return 8;
            }
        }
    }
}

#[test]
fn macro_branching_return() {
    let mut q = activated();
    assert_eq!(1, branching_return(&mut q, true, true, true));
    assert_eq!(2, branching_return(&mut q, true, true, false));
    assert_eq!(3, branching_return(&mut q, true, false, true));
    assert_eq!(4, branching_return(&mut q, true, false, false));
    assert_eq!(5, branching_return(&mut q, false, true, true));
    assert_eq!(6, branching_return(&mut q, false, true, false));
    assert_eq!(7, branching_return(&mut q, false, false, true));
    assert_eq!(8, branching_return(&mut q, false, false, false));
}

fn run_closure(x: impl Fn(bool, bool) -> bool) -> bool {
    x(true, false)
}

fn example_closure(q: &mut QADAPT) {
    q.enter_protected(TID, false);
    let c = run_closure(|a: bool, b| a && b);
    assert!(!c);
    let x = || true;
    assert!(x());
    q.exit_protected(TID, false).unwrap();
}

#[test]
fn macro_closure() {
    let mut q = activated();
    example_closure(&mut q);
}

#[test]
fn macro_release_safe() {
    // Instrumented configuration: the level is visible inside the region.
    let mut q = activated();
    q.enter_protected(TID, false);
    assert_eq!(1, q.protection_level(TID));
    q.exit_protected(TID, false).unwrap();
    // Release configuration: the guards are inert and the level stays zero.
    let mut r = QADAPT::new(false);
    let _ = r.allocate(TID, false, 1);
    r.enter_protected(TID, false);
    assert_eq!(0, r.protection_level(TID));
    let _ = r.exit_protected(TID, false);
}

//! The activation flag: set by the first allocation request the shim
//! services, and visible only in the instrumented configuration.

use qadapt::AllocResponse;
use qadapt::QADAPT;

const TID: usize = 7;

fn request_alloc(q: &mut QADAPT, tid: usize, size: usize) {
    match q.allocate(tid, false, size) {
        AllocResponse::Allocate => {}
        AllocResponse::Violation { size, level } => {
            panic!("Unexpected allocation for size {}, protection level: {}", size, level)
        }
        AllocResponse::Busy => unreachable!(),
    }
}

struct Empty;

struct NonEmpty {
    _x: i32,
    _y: i32,
}

#[test]
fn allocation_flag() {
    let mut q = QADAPT::new(true);
    assert!(!q.is_active());

    let _x = 24;
    assert!(!q.is_active());

    let _x = Empty {};
    assert!(!q.is_active());

    let _x = NonEmpty { _x: 42, _y: 84 };
    assert!(!q.is_active());

    // Boxing a value is the first request that reaches the shim.
    request_alloc(&mut q, TID, std::mem::size_of::<i32>());
    assert!(q.is_active());
}

fn no_op() {}

#[test]
fn no_alloc_during_noop() {
    let q = QADAPT::new(true);
    assert!(!q.is_active());

    no_op();
    assert!(!q.is_active());
}

fn allocates(q: &mut QADAPT) {
    request_alloc(q, TID, std::mem::size_of::<i32>());
}

#[test]
fn alloc_during_func_call() {
    let mut q = QADAPT::new(true);
    assert!(!q.is_active());

    allocates(&mut q);
    assert!(q.is_active());
}

#[test]
fn allocates_unrecorded() {
    // Release configuration: the flag is never reported, however many
    // requests the shim services.
    let mut q = QADAPT::new(false);
    assert!(!q.is_active());

    allocates(&mut q);
    assert!(!q.is_active());
}

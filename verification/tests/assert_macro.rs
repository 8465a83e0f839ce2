//! The scoped-expression form: evaluate an expression inside a guarded
//! region and yield its value.

use qadapt::AllocResponse;
use qadapt::QADAPT;

const TID: usize = 7;

fn activated() -> QADAPT {
    let mut q = QADAPT::new(true);
    let r = q.allocate(TID, false, 1);
    assert!(matches!(r, AllocResponse::Allocate));
    assert!(q.is_active());
    q
}

#[test]
fn math() {
    let mut q = activated();
    let x = q.protected(TID, false, || 2 + 2);
    assert_eq!(x, 4);
    assert_eq!(q.protection_level(TID), 0);
}

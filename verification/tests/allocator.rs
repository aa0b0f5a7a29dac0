use elfgen::error::BackendError;
use elfgen::ir::{RegisterAllocator, RegisterRequest};

#[test]
fn allocate_then_free_restores_each_pool_register() {
    // Every register of the general pool (all but rsp = 4 and rbp = 5).
    for r in [0u8, 1, 2, 3, 6, 7, 8, 9, 10, 11, 12, 13, 14, 15] {
        let mut alloc = RegisterAllocator::new();
        let held = alloc.allocate(RegisterRequest(r)).unwrap();
        assert_eq!(held.reg().0, r);
        // A second allocation of the same register fails while it is held.
        assert_eq!(
            alloc.allocate(RegisterRequest(r)).unwrap_err(),
            BackendError::RegisterNotAvailable
        );
        alloc.free(held).unwrap();
        // After the free, the register can be allocated again.
        let held_again = alloc.allocate(RegisterRequest(r)).unwrap();
        assert_eq!(held_again.reg().0, r);
    }
}

#[test]
fn reserved_registers_are_not_in_the_pool() {
    let mut alloc = RegisterAllocator::new();
    assert_eq!(
        alloc.allocate(RegisterRequest(4)).unwrap_err(),
        BackendError::RegisterNotAvailable
    );
    assert_eq!(
        alloc.allocate(RegisterRequest(5)).unwrap_err(),
        BackendError::RegisterNotAvailable
    );
}

#[test]
fn allocate_any_returns_distinct_ascending_registers_then_fails() {
    let mut alloc = RegisterAllocator::new();
    let mut got = Vec::new();
    // The pool holds 14 registers: 16 minus the two reserved ones.
    for _ in 0..14 {
        let held = alloc.allocate_any().unwrap();
        got.push(held.reg().0);
    }
    assert_eq!(got, vec![0u8, 1, 2, 3, 6, 7, 8, 9, 10, 11, 12, 13, 14, 15]);
    // Distinct and ascending.
    for w in got.windows(2) {
        assert!(w[0] < w[1]);
    }
    // The 15th request finds the pool empty.
    assert_eq!(
        alloc.allocate_any().unwrap_err(),
        BackendError::RegistersExhausted
    );
}

#[test]
fn allocate_any_skips_held_registers() {
    let mut alloc = RegisterAllocator::new();
    let rax = alloc.allocate(RegisterRequest(0)).unwrap();
    let next = alloc.allocate_any().unwrap();
    assert_eq!(next.reg().0, 1);
    alloc.free(rax).unwrap();
    let lowest = alloc.allocate_any().unwrap();
    assert_eq!(lowest.reg().0, 0);
    alloc.free(next).unwrap();
    alloc.free(lowest).unwrap();
}

#[test]
fn allocation_reports_its_register_name() {
    let mut alloc = RegisterAllocator::new();
    let rax = alloc.allocate(RegisterRequest(0)).unwrap();
    assert_eq!(rax.repr(), "rax");
    let rdi = alloc.allocate(RegisterRequest(7)).unwrap();
    assert_eq!(rdi.repr(), "rdi");
    let r10 = alloc.allocate(RegisterRequest(10)).unwrap();
    assert_eq!(r10.repr(), "r10");
}

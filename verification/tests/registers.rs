use ggbc::registers::RegisterAlloc;

#[test]
fn set() {
    let mut alloc = RegisterAlloc::default();
    alloc.set(0, true);
    alloc.set(2, true);
    alloc.set(4, true);
    alloc.set(6, true);
    assert!(alloc.get(0));
    assert!(!alloc.get(1));
    assert!(alloc.get(2));
    assert!(!alloc.get(3));
    assert!(alloc.get(4));
    assert!(!alloc.get(5));
    assert!(alloc.get(6));
    assert_eq!(0b1010101, alloc.bitset);
    alloc.set(2, false);
    alloc.set(4, false);
    alloc.set(6, false);
    assert_eq!(0b1, alloc.bitset);
    assert_eq!(1, alloc.min());
}

#[test]
fn alloc_reuses_lowest_free() {
    let mut alloc = RegisterAlloc::default();
    alloc.allocate();
    alloc.allocate();
    alloc.allocate();
    alloc.allocate();
    assert_eq!(0b1111, alloc.bitset);
    alloc.set(1, false);
    assert_eq!(0b1101, alloc.bitset);
    alloc.allocate();
    assert_eq!(0b1111, alloc.bitset);
}

#[test]
fn alloc_returns_indices_in_order() {
    let mut regs = RegisterAlloc::default();
    assert_eq!(0, regs.allocate());
    assert_eq!(1, regs.allocate());
    assert_eq!(2, regs.allocate());
    regs.free(1);
    assert_eq!(1, regs.allocate());
    assert_eq!(3, regs.allocate());
}

#[test]
fn len_counts_allocated_slots() {
    let mut regs = RegisterAlloc::default();
    assert_eq!(0, regs.len());
    regs.allocate();
    regs.allocate();
    regs.allocate();
    assert_eq!(3, regs.len());
    regs.free(0);
    assert_eq!(2, regs.len());
    regs.set(63, true);
    assert_eq!(3, regs.len());
}

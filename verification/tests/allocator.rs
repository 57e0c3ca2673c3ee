use multiplex::allocator::NumberAllocator;
use std::collections::HashSet;

#[test]
fn allocated_numbers_are_unique() {
    let mut allocator = NumberAllocator::new();
    let mut seen = HashSet::new();
    for _ in 0..2000 {
        let number = allocator.allocate().unwrap();
        assert!(seen.insert(number));
    }
    assert!(!allocator.is_exhausted());
}

#[test]
fn allocated_numbers_are_spread_out() {
    let mut allocator = NumberAllocator::new();
    let numbers: Vec<u32> = (0..64).map(|_| allocator.allocate().unwrap()).collect();
    assert!(numbers.iter().any(|n| *n > u32::MAX / 2));
    assert!(numbers.iter().any(|n| *n <= u32::MAX / 2));
    assert!(numbers.windows(2).any(|w| w[1] != w[0].wrapping_add(1)));
}

#[test]
fn claimed_number_is_not_free() {
    let mut allocator = NumberAllocator::new();
    assert!(allocator.claim(7));
    assert!(!allocator.claim(7));
    for _ in 0..500 {
        assert_ne!(allocator.allocate().unwrap(), 7);
    }
}

#[test]
fn released_number_is_free_again() {
    let mut allocator = NumberAllocator::new();
    let number = allocator.allocate().unwrap();
    assert!(!allocator.claim(number));
    allocator.release(number);
    assert!(allocator.claim(number));
}

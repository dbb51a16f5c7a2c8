use learn_os::buddy::BuddySystemAllocator;

fn used(a: &BuddySystemAllocator) -> Vec<bool> {
    (0..a.capacity()).map(|i| a.is_used(i)).collect()
}

#[test]
fn fresh_allocator_is_all_free() {
    let a = BuddySystemAllocator::new(13);
    assert_eq!(a.capacity(), 13);
    assert!(used(&a).iter().all(|u| !u));
}

#[test]
fn grants_lowest_blocks_rounded_to_powers_of_two() {
    let mut a = BuddySystemAllocator::new(16);
    assert_eq!(a.allocate(1, 1), Some(0));
    assert_eq!(a.allocate(1, 1), Some(1));
    // three units take a block of four, which must start on a multiple of four
    assert_eq!(a.allocate(3, 1), Some(4));
    assert_eq!(a.allocate(2, 1), Some(2));
    assert_eq!(a.allocate(8, 1), Some(8));
    assert_eq!(used(&a), vec![true; 16]);
    assert_eq!(a.allocate(1, 1), None);
}

#[test]
fn alignment_widens_the_block() {
    let mut a = BuddySystemAllocator::new(32);
    assert_eq!(a.allocate(1, 1), Some(0));
    assert_eq!(a.allocate(1, 8), Some(8));
    assert!(a.is_used(8));
    for i in 9..16 {
        assert!(a.is_used(i));
    }
    assert!(!a.is_used(1));
    assert_eq!(a.allocate(2, 16), Some(16));
}

#[test]
fn alignment_that_is_not_a_power_of_two_rounds_up() {
    let mut a = BuddySystemAllocator::new(8);
    // max(1, 3) = 3 rounds up to a block of four
    assert_eq!(a.allocate(1, 3), Some(0));
    assert_eq!(used(&a), vec![true, true, true, true, false, false, false, false]);
}

#[test]
fn zero_sized_request_takes_one_unit() {
    let mut a = BuddySystemAllocator::new(2);
    assert_eq!(a.allocate(0, 0), Some(0));
    assert_eq!(a.allocate(0, 0), Some(1));
    assert_eq!(a.allocate(0, 0), None);
}

#[test]
fn block_larger_than_capacity_is_refused() {
    let mut a = BuddySystemAllocator::new(6);
    assert_eq!(a.allocate(7, 1), None);
    assert_eq!(a.allocate(usize::MAX, 1), None);
    assert_eq!(a.allocate(1, usize::MAX), None);
    assert!(used(&a).iter().all(|u| !u));
    let mut empty = BuddySystemAllocator::new(0);
    assert_eq!(empty.allocate(0, 0), None);
}

#[test]
fn block_must_fit_inside_capacity() {
    let mut a = BuddySystemAllocator::new(6);
    assert_eq!(a.allocate(4, 1), Some(0));
    // the next block of four would end at 8 > 6
    assert_eq!(a.allocate(4, 1), None);
    assert_eq!(a.allocate(2, 1), Some(4));
    assert_eq!(a.allocate(1, 1), None);
}

#[test]
fn dealloc_undoes_allocate() {
    let mut a = BuddySystemAllocator::new(16);
    assert_eq!(a.allocate(1, 1), Some(0));
    assert_eq!(a.allocate(2, 1), Some(2));
    let before = used(&a);
    let s = a.allocate(3, 2).unwrap();
    assert_eq!(s, 4);
    a.dealloc(s, 3, 2);
    assert_eq!(used(&a), before);
    assert_eq!(a.allocate(3, 2), Some(4));
}

#[test]
fn grants_never_overlap() {
    let mut a = BuddySystemAllocator::new(64);
    let mut blocks: Vec<(usize, usize)> = Vec::new();
    for (size, align) in [(3, 1), (1, 1), (5, 4), (1, 16), (2, 2), (7, 1)] {
        let s = a.allocate(size, align).unwrap();
        let b = size.max(align).next_power_of_two();
        for &(t, c) in &blocks {
            assert!(s + b <= t || t + c <= s);
        }
        blocks.push((s, b));
    }
}

#[test]
fn freed_buddies_merge_into_a_larger_block() {
    let mut a = BuddySystemAllocator::new(4);
    assert_eq!(a.allocate(1, 1), Some(0));
    assert_eq!(a.allocate(1, 1), Some(1));
    assert_eq!(a.allocate(2, 1), Some(2));
    assert_eq!(a.allocate(2, 1), None);
    a.dealloc(0, 1, 1);
    assert_eq!(a.allocate(2, 1), None);
    a.dealloc(1, 1, 1);
    assert_eq!(a.allocate(2, 1), Some(0));
}

#[test]
fn dealloc_clips_to_capacity() {
    let mut a = BuddySystemAllocator::new(6);
    assert_eq!(a.allocate(4, 1), Some(0));
    assert_eq!(a.allocate(2, 1), Some(4));
    // a block of eight from unit 4 reaches past the end: units 4 and 5 are freed
    a.dealloc(4, 8, 1);
    assert_eq!(used(&a), vec![true, true, true, true, false, false]);
    // a start outside the allocator changes nothing
    a.dealloc(100, 1, 1);
    a.dealloc(usize::MAX, usize::MAX, usize::MAX);
    assert_eq!(used(&a), vec![true, true, true, true, false, false]);
}

#[test]
fn fresh_allocator_grants_first_block() {
    for cap in [1usize, 5, 8, 9, 100] {
        for size in 1..=cap {
            let mut a = BuddySystemAllocator::new(cap);
            let b = size.next_power_of_two();
            if b <= cap {
                assert_eq!(a.allocate(size, 1), Some(0));
            } else {
                assert_eq!(a.allocate(size, 1), None);
            }
        }
    }
}

#[test]
fn live_blocks_never_overlap_over_a_history() {
    let mut a = BuddySystemAllocator::new(64);
    // (start, block size, size, align) of every block granted and not freed
    let mut live: Vec<(usize, usize, usize, usize)> = Vec::new();
    let requests = [(3, 1), (1, 1), (5, 4), (1, 16), (2, 2), (7, 1), (9, 1), (1, 32), (4, 4)];
    let mut step = 0usize;
    for round in 0..6 {
        for &(size, align) in &requests {
            step += 1;
            if step % 3 == 0 && !live.is_empty() {
                let (s, _, sz, al) = live.remove((step / 3) % live.len());
                a.dealloc(s, sz, al);
            }
            if let Some(s) = a.allocate(size + round % 2, align) {
                let b = (size + round % 2).max(align).next_power_of_two();
                assert!(s + size + round % 2 <= a.capacity());
                assert_eq!(s % align, 0);
                for &(t, c, _, _) in &live {
                    assert!(s + b <= t || t + c <= s);
                }
                live.push((s, b, size + round % 2, align));
            }
            for &(t, c, _, _) in &live {
                for i in t..t + c {
                    assert!(a.is_used(i));
                }
            }
        }
    }
}

use bump_allocator::align::{checked_align_up, is_power_of_two};

#[test]
fn powers_of_two_are_recognised() {
    for shift in 0..usize::BITS {
        assert!(is_power_of_two(1usize << shift));
    }
    for n in [0usize, 3, 5, 6, 7, 9, 10, 12, 100, 4095, 4097, usize::MAX, usize::MAX - 1] {
        assert!(!is_power_of_two(n), "{n} is no power of two");
    }
    for n in 0..1024usize {
        assert_eq!(is_power_of_two(n), n.is_power_of_two());
    }
}

#[test]
fn align_up_moves_to_the_next_multiple() {
    assert_eq!(checked_align_up(0, 8), Some(0));
    assert_eq!(checked_align_up(1, 8), Some(8));
    assert_eq!(checked_align_up(7, 8), Some(8));
    assert_eq!(checked_align_up(8, 8), Some(8));
    assert_eq!(checked_align_up(9, 8), Some(16));
    assert_eq!(checked_align_up(0x1001, 0x1000), Some(0x2000));
    assert_eq!(checked_align_up(12345, 1), Some(12345));
    assert_eq!(checked_align_up(10, 3), Some(12));
    assert_eq!(checked_align_up(12, 3), Some(12));
    assert_eq!(checked_align_up(5, 100), Some(100));
}

#[test]
fn align_up_agrees_with_std() {
    for addr in 0..200usize {
        for align in 1..40usize {
            assert_eq!(checked_align_up(addr, align), Some(addr.next_multiple_of(align)));
        }
    }
}

#[test]
fn align_up_reports_overflow() {
    assert_eq!(checked_align_up(usize::MAX, 1), Some(usize::MAX));
    assert_eq!(checked_align_up(usize::MAX, 2), None);
    assert_eq!(checked_align_up(usize::MAX - 6, 8), None);
    assert_eq!(checked_align_up(usize::MAX - 7, 8), Some(usize::MAX - 7));
    assert_eq!(checked_align_up(usize::MAX - 8, 8), Some(usize::MAX - 7));
    assert_eq!(checked_align_up(usize::MAX, usize::MAX), Some(usize::MAX));
    assert_eq!(checked_align_up(1, usize::MAX), Some(usize::MAX));
}

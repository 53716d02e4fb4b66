use randgen::sampler::{bits_per_element, num_elements, unbiased_index};

#[test]
fn unbiased_index_accepts_and_reduces() {
    assert_eq!(unbiased_index(0, 64), Some(0));
    assert_eq!(unbiased_index(65, 64), Some(1));
    assert_eq!(unbiased_index(1000, 7), Some(1000 % 7));
}

#[test]
fn unbiased_index_rejection_boundary() {
    let count = 64u64;
    // The largest accepted word.
    let top = u64::MAX - count;
    assert_eq!(unbiased_index(top, count), Some(top % count));
    // Everything above it is rejected.
    assert_eq!(unbiased_index(top + 1, count), None);
    assert_eq!(unbiased_index(u64::MAX, count), None);
    // Exactly `count` words are rejected for any count.
    for count in [1u64, 2, 3, 64, 1000] {
        let rejected = u64::MAX - (u64::MAX - count);
        assert_eq!(rejected, count);
    }
}

#[test]
fn unbiased_index_count_one_always_zero() {
    assert_eq!(unbiased_index(12345, 1), Some(0));
    assert_eq!(unbiased_index(u64::MAX - 1, 1), Some(0));
    assert_eq!(unbiased_index(u64::MAX, 1), None);
}

#[test]
fn accepted_classes_translate_for_power_of_two() {
    // The balance behind bias-free sampling for a power-of-two alphabet:
    // shifting an accepted word from its own index to any other index stays
    // accepted, and shifting back returns the original word.
    let count = 64u64;
    for w in [0u64, 63, 64, 12345, u64::MAX - 64] {
        assert!(w <= u64::MAX - count);
        let i = w % count;
        for j in [0u64, 1, 31, 63] {
            let translated = w - i + j;
            assert!(translated <= u64::MAX - count);
            assert_eq!(translated % count, j);
            assert_eq!(translated - (translated % count) + i, w);
        }
    }
}

#[test]
fn bits_per_element_power_of_two_sizes() {
    assert_eq!(bits_per_element(2), Some(1));
    assert_eq!(bits_per_element(64), Some(6));
    assert_eq!(bits_per_element(256), Some(8));
    assert_eq!(bits_per_element(1 << 63), Some(63));
}

#[test]
fn bits_per_element_other_sizes_undefined() {
    assert_eq!(bits_per_element(0), None);
    assert_eq!(bits_per_element(1), None);
    assert_eq!(bits_per_element(10), None);
    assert_eq!(bits_per_element(94), None);
    assert_eq!(bits_per_element(u64::MAX), None);
}

#[test]
fn num_elements_rounds_up() {
    assert_eq!(num_elements(256, 6), 43);
    assert_eq!(num_elements(256, 8), 32);
    assert_eq!(num_elements(1, 1), 1);
    assert_eq!(num_elements(0, 5), 0);
    assert_eq!(num_elements(13, 6), 3);
}

use fee_scheduler::sampler::{generate_randomness, sample};

// 1. Check when lower_bound is greater than upper_bound
#[test]
fn test_generate_randomness_with_flipped_bounds() {
    let min = 100;
    let max = 50;

    let result = generate_randomness(100, 50).unwrap();
    assert!(result >= max && result < min);
}

// 2. Check when lower_bound is equal to upper_bound
#[test]
fn test_generate_randomness_with_equal_bounds() {
    let bound = 100;
    assert_eq!(generate_randomness(bound, bound).unwrap(), bound);
}

// 3. Test within a range
#[test]
fn test_generate_randomness_within_bounds() {
    let min = 100;
    let max = 200;

    let result = generate_randomness(min, max).unwrap();

    assert!(result >= min && result < max);
}

// 4. Test randomness distribution (not truly deterministic, but a sanity check)
#[test]
fn test_generate_randomness_distribution() {
    let min = 0;
    let max = 9;

    let mut counts = vec![0; 10];
    for _ in 0..1000 {
        let result = generate_randomness(min, max).unwrap();
        let index: usize = result as usize;
        counts[index] += 1;
    }

    // Ensure all counts are non-zero (probabilistically should be the case)
    for count in counts.iter() {
        assert!(*count > 0);
    }
}

// Equal bounds are answered before any entropy is read, so success is
// owed there for every bound.
#[test]
fn equal_bounds_never_fail() {
    for bound in 0..=255u8 {
        assert_eq!(generate_randomness(bound, bound).unwrap(), bound);
    }
}

#[test]
fn sample_reduces_one_byte_into_the_inclusive_range() {
    for byte in 0..=255u8 {
        let r = sample(5, 10, byte);
        assert!((5..=10).contains(&r));
    }
    // The reduction is the byte modulo the window size, shifted up.
    assert_eq!(sample(5, 10, 0), 5);
    assert_eq!(sample(5, 10, 7), 6);
    assert_eq!(sample(5, 10, 13), 6);
    assert_eq!(sample(1, 254, 6), 7);
}

#[test]
fn sample_is_symmetric_in_its_bounds() {
    for byte in 0..=255u8 {
        assert_eq!(sample(3, 9, byte), sample(9, 3, byte));
        assert_eq!(sample(0, 255, byte), sample(255, 0, byte));
    }
}

#[test]
fn sample_handles_a_range_reaching_255_without_wrapping() {
    for byte in 0..=255u8 {
        let r = sample(250, 255, byte);
        assert!((250..=255).contains(&r));
        assert_eq!(sample(0, 255, byte), byte);
    }
}

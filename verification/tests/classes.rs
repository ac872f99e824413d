use simple_itoa::class::{class_range, pow10_u64};
use simple_itoa::display::SimpleDisplay;
use simple_itoa::sampling::{sample, sample_batch, seeded_rng};

#[test]
fn powers_of_ten() {
    assert_eq!(pow10_u64(0), 1);
    assert_eq!(pow10_u64(1), 10);
    assert_eq!(pow10_u64(6), 1_000_000);
    assert_eq!(pow10_u64(19), 10_000_000_000_000_000_000);
}

#[test]
fn class_bounds() {
    assert_eq!(class_range(1), (1, 9));
    assert_eq!(class_range(2), (10, 99));
    assert_eq!(class_range(3), (100, 999));
    assert_eq!(class_range(19), (1_000_000_000_000_000_000, 9_999_999_999_999_999_999));
}

#[test]
fn twentieth_class_ends_at_the_greatest_value() {
    assert_eq!(class_range(20), (10_000_000_000_000_000_000, 18446744073709551615));
}

#[test]
fn class_bounds_have_the_digits_of_the_class() {
    for digits in 1..=20u32 {
        let (low, high) = class_range(digits);
        assert!(low <= high);
        assert_eq!(SimpleDisplay(low).to_text().len(), digits as usize);
        assert_eq!(SimpleDisplay(high).to_text().len(), digits as usize);
        if digits > 1 {
            assert_eq!(SimpleDisplay(low - 1).to_text().len(), digits as usize - 1);
        }
        if digits < 20 {
            assert_eq!(SimpleDisplay(high + 1).to_text().len(), digits as usize + 1);
        }
    }
}

#[test]
fn sampled_values_have_the_digits_of_their_class() {
    let mut rng = seeded_rng(7);
    for digits in 1..=20u32 {
        let (low, high) = class_range(digits);
        let batch = sample_batch(&mut rng, low, high, 200);
        assert_eq!(batch.len(), 200);
        for v in batch {
            assert!(low <= v && v <= high);
            assert_eq!(SimpleDisplay(v).to_text().len(), digits as usize);
        }
    }
}

#[test]
fn single_value_range_yields_that_value() {
    let mut rng = seeded_rng(3);
    assert_eq!(sample(&mut rng, 5, 5), 5);
    assert_eq!(sample(&mut rng, u64::MAX, u64::MAX), u64::MAX);
    assert_eq!(sample(&mut rng, 0, 0), 0);
}

use rand::distributions::Uniform;
use rand::{Rng, SeedableRng};
use rand_xorshift::XorShiftRng;
use simple_itoa::sampling::{sample, sample_batch, seeded_rng};

#[test]
fn same_seed_gives_identical_batches() {
    let mut first = seeded_rng(42);
    let mut second = seeded_rng(42);
    for _ in 0..5 {
        let a = sample_batch(&mut first, 100, 999, 50);
        let b = sample_batch(&mut second, 100, 999, 50);
        assert_eq!(a, b);
    }
    let a = sample_batch(&mut first, 10_000_000_000_000_000_000, u64::MAX, 50);
    let b = sample_batch(&mut second, 10_000_000_000_000_000_000, u64::MAX, 50);
    assert_eq!(a, b);
}

#[test]
fn different_seeds_give_different_batches() {
    let mut first = seeded_rng(42);
    let mut second = seeded_rng(43);
    let a = sample_batch(&mut first, 0, u64::MAX - 1, 50);
    let b = sample_batch(&mut second, 0, u64::MAX - 1, 50);
    assert_ne!(a, b);
}

#[test]
fn seeded_generator_is_the_xorshift_generator_of_that_seed() {
    let mut ours = seeded_rng(42);
    let mut theirs = XorShiftRng::seed_from_u64(42);
    for _ in 0..20 {
        let expected: u64 = theirs.gen_range(100u64, 1000u64);
        assert_eq!(sample(&mut ours, 100, 999), expected);
    }
}

#[test]
fn ranges_below_the_top_are_drawn_half_open() {
    let mut ours = seeded_rng(1);
    let mut theirs = XorShiftRng::seed_from_u64(1);
    let batch = sample_batch(&mut ours, 1_000, 9_999, 300);
    let mut low_seen = 0;
    for v in batch {
        let expected: u64 = theirs.gen_range(1_000u64, 10_000u64);
        assert_eq!(v, expected);
        assert!(1_000 <= v && v <= 9_999);
        if v == 1_000 {
            low_seen += 1;
        }
    }
    assert!(low_seen < 300);
}

#[test]
fn range_up_to_the_top_is_drawn_closed() {
    let low = 10_000_000_000_000_000_000u64;
    let mut ours = seeded_rng(9);
    let mut theirs = XorShiftRng::seed_from_u64(9);
    let batch = sample_batch(&mut ours, low, u64::MAX, 300);
    let mut distinct = false;
    for v in batch.iter().copied() {
        let expected: u64 = theirs.sample(Uniform::new_inclusive(low, u64::MAX));
        assert_eq!(v, expected);
        assert!(v >= low);
        if v != batch[0] {
            distinct = true;
        }
    }
    assert!(distinct);
}

#[test]
fn drawing_advances_the_generator() {
    let mut rng = seeded_rng(42);
    let a = sample_batch(&mut rng, 0, u64::MAX - 1, 20);
    let b = sample_batch(&mut rng, 0, u64::MAX - 1, 20);
    assert_ne!(a, b);
}

#[test]
fn empty_batch_leaves_the_generator_alone() {
    let mut touched = seeded_rng(11);
    let untouched = touched.clone();
    let batch = sample_batch(&mut touched, 1, 9, 0);
    assert!(batch.is_empty());
    let mut untouched = untouched;
    assert_eq!(sample(&mut touched, 1, 1_000_000), sample(&mut untouched, 1, 1_000_000));
}

use simple_itoa::clock::{saturate, Stopwatch};
use simple_itoa::stats::{stats, BENCH_ITER};

#[test]
fn statistics_of_a_full_sample_set() {
    let samples: Vec<u64> = (1..=100u64).map(|i| i * 1_000).collect();
    assert_eq!(samples.len(), BENCH_ITER);
    let st = stats(&samples);
    assert_eq!(st.min, 1_000);
    assert_eq!(st.max, 100_000);
    assert_eq!(st.avg, 50_500);
}

#[test]
fn average_divides_by_the_pass_count_not_the_length() {
    let st = stats(&[500]);
    assert_eq!(st.min, 500);
    assert_eq!(st.max, 500);
    assert_eq!(st.avg, 5);

    let st = stats(&[30, 10, 20]);
    assert_eq!(st.min, 10);
    assert_eq!(st.max, 30);
    assert_eq!(st.avg, 0);

    let many = vec![7u64; 250];
    let st = stats(&many);
    assert_eq!(st.avg, 17);
    assert_eq!(st.min, 7);
    assert_eq!(st.max, 7);
}

#[test]
fn average_rounds_down() {
    let mut samples = vec![0u64; 100];
    samples[3] = 199;
    let st = stats(&samples);
    assert_eq!(st.avg, 1);
    assert_eq!(st.min, 0);
    assert_eq!(st.max, 199);
}

#[test]
fn full_sample_set_has_ordered_statistics() {
    let mut state: u64 = 12345;
    for _ in 0..50 {
        let mut samples = Vec::new();
        for _ in 0..BENCH_ITER {
            state = state.wrapping_mul(6364136223846793005).wrapping_add(1442695040888963407);
            samples.push(state >> 20);
        }
        let st = stats(&samples);
        assert!(st.min <= st.max);
        assert!(st.min as u128 <= st.avg);
        assert!(st.avg <= st.max as u128);
    }
}

#[test]
fn greatest_samples_do_not_overflow_the_sum() {
    let samples = vec![u64::MAX; 100];
    let st = stats(&samples);
    assert_eq!(st.min, u64::MAX);
    assert_eq!(st.max, u64::MAX);
    assert_eq!(st.avg, u64::MAX as u128);

    let more = vec![u64::MAX; 300];
    assert_eq!(stats(&more).avg, 3 * (u64::MAX as u128));
}

#[test]
fn nanoseconds_saturate_at_sixty_four_bits() {
    assert_eq!(saturate(0), 0);
    assert_eq!(saturate(1_500_000_000), 1_500_000_000);
    assert_eq!(saturate(u64::MAX as u128), u64::MAX);
    assert_eq!(saturate(u64::MAX as u128 + 1), u64::MAX);
    assert_eq!(saturate(u128::MAX), u64::MAX);
}

#[test]
fn stopwatch_does_not_run_backward() {
    let watch = Stopwatch::start();
    let first = watch.elapsed_nanos();
    let mut spin: u64 = 0;
    for i in 0..10_000u64 {
        spin = spin.wrapping_add(i * i);
    }
    assert!(spin > 0);
    let second = watch.elapsed_nanos();
    assert!(first <= second);
}

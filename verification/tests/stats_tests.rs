use hyperfine::stats::{isqrt_u128, mean_ns, median_ns, sorted_copy, stddev_ns};
use hyperfine::min_max::{extrema_ns, MinMax};
use hyperfine::outlier::detect_outliers;

#[test]
fn mean_rounds_down() {
    assert_eq!(mean_ns(&vec![1, 2]), 1);
    assert_eq!(mean_ns(&vec![2, 4, 6]), 4);
    assert_eq!(mean_ns(&vec![7]), 7);
}

#[test]
fn median_odd_and_even() {
    assert_eq!(median_ns(&vec![3, 1, 2]), 2);
    assert_eq!(median_ns(&vec![4, 1, 3, 2]), 2);
    assert_eq!(median_ns(&vec![5]), 5);
    assert_eq!(median_ns(&vec![1, 2]), 1);
}

#[test]
fn sorting_is_ascending() {
    let sorted = sorted_copy(&vec![5, 3, 9, 3, 1]);
    assert_eq!(sorted, vec![1, 3, 3, 5, 9]);
}

#[test]
fn integer_square_roots() {
    assert_eq!(isqrt_u128(0), 0);
    assert_eq!(isqrt_u128(1), 1);
    assert_eq!(isqrt_u128(15), 3);
    assert_eq!(isqrt_u128(16), 4);
    assert_eq!(isqrt_u128(20_000_000_000), 141421);
    assert_eq!(isqrt_u128(u64::MAX as u128 * u64::MAX as u128), u64::MAX);
}

#[test]
fn stddev_of_spread_samples() {
    // deviations from the mean 2_000_000 are ±1_000_000 and 0:
    // variance (10^12 + 10^12) / 2 = 10^12, stddev 10^6
    let samples = vec![1_000_000, 2_000_000, 3_000_000];
    assert_eq!(stddev_ns(&samples), 1_000_000);
}

#[test]
fn stddev_of_identical_samples_is_zero() {
    let samples = vec![10_000_000; 20];
    assert_eq!(stddev_ns(&samples), 0);
}

#[test]
fn extrema_are_raw() {
    let (min, max) = extrema_ns(&vec![4, 9, 1, 7]);
    assert_eq!(min, 1);
    assert_eq!(max, 9);
}

#[test]
fn min_max_tracker_folds() {
    let mut t = MinMax::new();
    t.observe(5);
    t.observe(2);
    t.observe(9);
    assert_eq!(t.min_ns, 2);
    assert_eq!(t.max_ns, 9);
    assert_eq!(t.count, 3);
}

#[test]
fn detector_is_noop_on_tiny_batches() {
    let (retained, outliers) = detect_outliers(&vec![1, 1_000_000]);
    assert_eq!(retained, vec![1, 1_000_000]);
    assert!(outliers.is_empty());
}

#[test]
fn detector_flags_single_extreme_sample() {
    // twenty identical 10 ms samples plus one 500 ms sample: exactly the
    // 500 ms sample is flagged
    let mut samples = vec![10_000_000u64; 20];
    samples.push(500_000_000);
    let (retained, outliers) = detect_outliers(&samples);
    assert_eq!(retained, vec![10_000_000u64; 20]);
    assert_eq!(outliers, vec![500_000_000]);
}

#[test]
fn detector_keeps_identical_samples() {
    let samples = vec![7_000_000u64; 5];
    let (retained, outliers) = detect_outliers(&samples);
    assert_eq!(retained, samples);
    assert!(outliers.is_empty());
}

#[test]
fn detector_stable_on_clean_retained_batch() {
    // a second pass over the retained samples of the first removes nothing
    let mut samples = vec![10_000_000u64; 20];
    samples.push(500_000_000);
    let (retained, _) = detect_outliers(&samples);
    let (retained2, outliers2) = detect_outliers(&retained);
    assert_eq!(retained2, retained);
    assert!(outliers2.is_empty());
}

#[test]
fn detector_keeps_moderate_spread() {
    let samples = vec![3_000_000, 1_000_000, 2_000_000];
    let (retained, outliers) = detect_outliers(&samples);
    assert_eq!(retained, samples);
    assert!(outliers.is_empty());
}

use order_propagation::stats::{calculate_stats, integer_sqrt, propagation_threshold};

#[test]
fn threshold_of_a_thousand_nodes() {
    assert_eq!(propagation_threshold(1_000), 950);
}

#[test]
fn threshold_of_twenty_four_nodes_rounds_up() {
    assert_eq!(propagation_threshold(24), 23);
}

#[test]
fn threshold_at_the_edges() {
    assert_eq!(propagation_threshold(0), 0);
    assert_eq!(propagation_threshold(1), 1);
    assert_eq!(propagation_threshold(19), 19);
    assert_eq!(propagation_threshold(20), 19);
    assert_eq!(propagation_threshold(21), 20);
    assert_eq!(propagation_threshold(100), 95);
    assert_eq!(propagation_threshold(101), 96);
    assert_eq!(propagation_threshold(u64::MAX), u64::MAX - u64::MAX / 20);
}

#[test]
fn threshold_is_the_least_number_not_below_the_share() {
    let mut n: u64 = 0;
    while n < 2_000 {
        let t: u128 = propagation_threshold(n) as u128;
        assert!(100 * t >= 95 * n as u128);
        assert!(t == 0 || 100 * (t - 1) < 95 * n as u128);
        n += 1;
    }
}

#[test]
fn stats_of_no_samples() {
    assert_eq!(calculate_stats(&Vec::new()), (0, 0));
}

#[test]
fn stats_of_one_sample() {
    assert_eq!(calculate_stats(&vec![42]), (42, 0));
}

#[test]
fn stats_of_a_known_series() {
    // mean 5, squared deviations 9 + 1 + 1 + 1 + 0 + 0 + 4 + 16 = 32, variance 4
    assert_eq!(calculate_stats(&vec![2, 4, 4, 4, 5, 5, 7, 9]), (5, 2));
}

#[test]
fn stats_round_down() {
    // sum 7, mean 2; squared deviations 1 + 0 + 4 = 5, variance 1
    assert_eq!(calculate_stats(&vec![1, 2, 4]), (2, 1));
    // mean 500_000_000, variance 250_000_000_000_000_000, root 500_000_000
    assert_eq!(calculate_stats(&vec![0, 1_000_000_000]), (500_000_000, 500_000_000));
    // mean 1, deviations 1 + 1 + 1 = 3... over 3 samples: variance 1
    assert_eq!(calculate_stats(&vec![0, 2, 2]), (1, 1));
}

#[test]
fn stats_of_the_largest_samples() {
    assert_eq!(calculate_stats(&vec![u64::MAX, u64::MAX, u64::MAX]), (u64::MAX, 0));
    // mean floor((2^64 - 1) / 2) = 2^63 - 1; deviations 2^63 - 1 and 2^63
    let (mean, deviation): (u64, u64) = calculate_stats(&vec![0, u64::MAX]);
    assert_eq!(mean, (1u64 << 63) - 1);
    let low: u128 = (1u128 << 63) - 1;
    let high: u128 = 1u128 << 63;
    let variance: u128 = (low * low + high * high) / 2;
    let root: u128 = deviation as u128;
    assert!(root * root <= variance);
    assert!((root + 1) * (root + 1) > variance);
}

#[test]
fn integer_sqrt_rounds_down() {
    assert_eq!(integer_sqrt(0), 0);
    assert_eq!(integer_sqrt(1), 1);
    assert_eq!(integer_sqrt(3), 1);
    assert_eq!(integer_sqrt(4), 2);
    assert_eq!(integer_sqrt(99), 9);
    assert_eq!(integer_sqrt(100), 10);
    assert_eq!(integer_sqrt(1 << 64), 1 << 32);
    assert_eq!(integer_sqrt((1 << 64) - 1), (1 << 32) - 1);
    assert_eq!(integer_sqrt(u128::MAX), u64::MAX);
    let square: u128 = (u64::MAX as u128) * (u64::MAX as u128);
    assert_eq!(integer_sqrt(square), u64::MAX);
    assert_eq!(integer_sqrt(square - 1), u64::MAX - 1);
}

use order_propagation::plot::{latency_histogram, NUM_BINS};

#[test]
fn histogram_of_nothing() {
    let histogram = latency_histogram(&Vec::new());
    assert_eq!(histogram.bin_width, 1);
    assert_eq!(histogram.bins, vec![0u32; NUM_BINS]);
    assert_eq!(histogram.max_freq, 0);
}

#[test]
fn small_latencies_get_bins_of_width_one() {
    let histogram = latency_histogram(&vec![0, 1, 1, 3, 49, 49, 49]);
    assert_eq!(histogram.bin_width, 1);
    assert_eq!(histogram.bins.len(), 50);
    assert_eq!(histogram.bins[0], 1);
    assert_eq!(histogram.bins[1], 2);
    assert_eq!(histogram.bins[2], 0);
    assert_eq!(histogram.bins[3], 1);
    assert_eq!(histogram.bins[49], 3);
    assert_eq!(histogram.max_freq, 3);
    let total: u32 = histogram.bins.iter().sum();
    assert_eq!(total, 7);
}

#[test]
fn bin_width_grows_with_the_largest_latency() {
    let histogram = latency_histogram(&vec![50, 0, 1, 2, 99]);
    // 99 / 50 + 1
    assert_eq!(histogram.bin_width, 2);
    assert_eq!(histogram.bins[0], 2);
    assert_eq!(histogram.bins[1], 1);
    assert_eq!(histogram.bins[25], 1);
    assert_eq!(histogram.bins[49], 1);
    assert_eq!(histogram.max_freq, 2);
}

#[test]
fn the_largest_latency_falls_into_a_bin() {
    let histogram = latency_histogram(&vec![u128::MAX, 0, u128::MAX / 2]);
    assert_eq!(histogram.bin_width, u128::MAX / 50 + 1);
    assert_eq!(histogram.bins[0], 1);
    assert_eq!(histogram.bins[24], 1);
    assert_eq!(histogram.bins[49], 1);
    assert_eq!(histogram.max_freq, 1);

    let round = latency_histogram(&vec![100]);
    assert_eq!(round.bin_width, 3);
    assert_eq!(round.bins[33], 1);
    assert_eq!(round.max_freq, 1);
}

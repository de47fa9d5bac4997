//! The binning behind the latency chart.
use vstd::prelude::*;

verus! {

/// The number of bars of the chart.
pub const NUM_BINS: usize = 50;

/// Latencies sorted into bins of equal width.
pub struct Histogram {
    /// The width of a bin in milliseconds, at least one.
    pub bin_width: u128,
    /// The number of latencies in each of the `NUM_BINS` bins.
    pub bins: Vec<u32>,
    /// The largest of those numbers.
    pub max_freq: u32,
}

/// The largest of the values; zero where there is none.
pub open spec fn largest(values: Seq<u128>) -> u128
    decreases values.len(),
{
    if values.len() == 0 {
        0
    } else if values.last() > largest(values.drop_last()) {
        values.last()
    } else {
        largest(values.drop_last())
    }
}

/// The bin width that makes the largest value fall into one of the bins.
pub open spec fn bin_width_of(values: Seq<u128>) -> int {
    largest(values) / 50 + 1
}

/// How many of the values fall into bin number `bin` at a given bin width.
pub open spec fn count_in_bin(values: Seq<u128>, width: int, bin: int) -> nat
    decreases values.len(),
{
    if values.len() == 0 {
        0
    } else {
        count_in_bin(values.drop_last(), width, bin) + if values.last() as int / width == bin {
            1nat
        } else {
            0nat
        }
    }
}

/// `top` is the largest entry of `counts`.
pub open spec fn is_largest_count(counts: Seq<u32>, top: u32) -> bool {
    &&& forall|b: int| 0 <= b < counts.len() ==> counts[b] <= top
    &&& exists|b: int| 0 <= b < counts.len() && counts[b] == top
}

proof fn lemma_largest_bounds(values: Seq<u128>, i: int)
    requires
        0 <= i < values.len(),
    ensures
        values[i] <= largest(values),
    decreases values.len(),
{
    if i < values.len() - 1 {
        lemma_largest_bounds(values.drop_last(), i);
    }
}

proof fn lemma_largest_grows(values: Seq<u128>, upto: int)
    requires
        0 <= upto <= values.len(),
    ensures
        largest(values.take(upto)) <= largest(values),
    decreases values.len() - upto,
{
    if upto < values.len() {
        lemma_largest_grows(values, upto + 1);
        assert(values.take(upto + 1).drop_last() =~= values.take(upto));
    } else {
        assert(values.take(upto) =~= values);
    }
}

proof fn lemma_count_bound(values: Seq<u128>, width: int, bin: int)
    ensures
        count_in_bin(values, width, bin) <= values.len(),
    decreases values.len(),
{
    if values.len() > 0 {
        lemma_count_bound(values.drop_last(), width, bin);
    }
}

proof fn lemma_bin_in_range(value: u128, top: u128)
    requires
        value <= top,
    ensures
        0 <= value as int / (top / 50 + 1) < 50,
{
    let width = top / 50 + 1;
    assert(top < 50 * width);
    assert(0 <= value as int / width < 50) by (nonlinear_arith)
        requires
            0 <= value < 50 * width,
            width > 0,
    ;
}

/// Sorts latencies, given in milliseconds, into `NUM_BINS` bins of equal
/// width. The width is the largest latency divided by the number of bins,
/// rounded down, plus one, so that every latency falls into a bin.
pub fn latency_histogram(latencies_ms: &Vec<u128>) -> (histogram: Histogram)
    requires
        latencies_ms.len() <= u32::MAX,
    ensures
        histogram.bin_width == bin_width_of(latencies_ms@),
        histogram.bins@.len() == NUM_BINS,
        forall|b: int|
            0 <= b < NUM_BINS ==> #[trigger] histogram.bins@[b] == count_in_bin(
                latencies_ms@,
                histogram.bin_width as int,
                b,
            ),
        is_largest_count(histogram.bins@, histogram.max_freq),
{
    let mut max_latency: u128 = 0;
    let mut i: usize = 0;
    while i < latencies_ms.len()
        invariant
            i <= latencies_ms.len(),
            max_latency == largest(latencies_ms@.take(i as int)),
        decreases latencies_ms.len() - i,
    {
        assert(latencies_ms@.take(i + 1).drop_last() =~= latencies_ms@.take(i as int));
        if latencies_ms[i] > max_latency {
            max_latency = latencies_ms[i];
        }
        i += 1;
    }
    assert(latencies_ms@.take(latencies_ms.len() as int) =~= latencies_ms@);
    let bin_width = max_latency / 50 + 1;

    let mut bins: Vec<u32> = Vec::new();
    let mut b: usize = 0;
    while b < NUM_BINS
        invariant
            b <= NUM_BINS,
            bins@.len() == b,
            forall|k: int| 0 <= k < b ==> bins@[k] == 0,
        decreases NUM_BINS - b,
    {
        bins.push(0);
        b += 1;
    }

    let mut i: usize = 0;
    while i < latencies_ms.len()
        invariant
            i <= latencies_ms.len() <= u32::MAX,
            max_latency == largest(latencies_ms@),
            bin_width == max_latency / 50 + 1,
            bins@.len() == NUM_BINS,
            forall|k: int|
                0 <= k < NUM_BINS ==> #[trigger] bins@[k] == count_in_bin(
                    latencies_ms@.take(i as int),
                    bin_width as int,
                    k,
                ),
        decreases latencies_ms.len() - i,
    {
        let latency = latencies_ms[i];
        proof {
            lemma_largest_bounds(latencies_ms@, i as int);
            lemma_bin_in_range(latency, max_latency);
            assert(latencies_ms@.take(i + 1).drop_last() =~= latencies_ms@.take(i as int));
            lemma_count_bound(
                latencies_ms@.take(i as int),
                bin_width as int,
                latency as int / bin_width as int,
            );
        }
        let bin_index = (latency / bin_width) as usize;
        let count = bins[bin_index];
        bins.set(bin_index, count + 1);
        i += 1;
    }
    assert(latencies_ms@.take(latencies_ms.len() as int) =~= latencies_ms@);

    let mut max_freq: u32 = bins[0];
    let mut b: usize = 1;
    while b < NUM_BINS
        invariant
            1 <= b <= NUM_BINS,
            bins@.len() == NUM_BINS,
            forall|k: int| 0 <= k < b ==> bins@[k] <= max_freq,
            exists|k: int| 0 <= k < b && bins@[k] == max_freq,
        decreases NUM_BINS - b,
    {
        if bins[b] > max_freq {
            max_freq = bins[b];
        }
        b += 1;
    }
    Histogram { bin_width, bins, max_freq }
}

} // verus!

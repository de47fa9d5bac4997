//! The propagation threshold and the summary statistics of a series of runs.
use vstd::arithmetic::div_mod::lemma_fundamental_div_mod;
use vstd::arithmetic::div_mod::lemma_fundamental_div_mod_converse;
use vstd::prelude::*;

verus! {

/// Ninety-five percent of a population, rounded up.
pub open spec fn threshold_of(num_nodes: nat) -> nat {
    (95 * num_nodes + 99) / 100
}

/// The number of nodes a message has to reach for a run to count as
/// propagated: the least whole number that is not below 95% of the
/// population.
pub fn propagation_threshold(num_nodes: u64) -> (threshold: u64)
    ensures
        threshold == threshold_of(num_nodes as nat),
        100 * threshold >= 95 * num_nodes,
        100 * threshold < 95 * num_nodes + 100,
{
    num_nodes - num_nodes / 20
}

/// The sum of the samples.
pub open spec fn total(data: Seq<u64>) -> nat
    decreases data.len(),
{
    if data.len() == 0 {
        0
    } else {
        total(data.drop_last()) + data.last() as nat
    }
}

/// The mean of the samples, rounded down; zero for no samples.
pub open spec fn mean_of(data: Seq<u64>) -> nat {
    if data.len() == 0 {
        0
    } else {
        total(data) / data.len()
    }
}

/// The sum of the squared distances of the samples from `center`.
pub open spec fn squared_deviations(data: Seq<u64>, center: int) -> nat
    decreases data.len(),
{
    if data.len() == 0 {
        0
    } else {
        squared_deviations(data.drop_last(), center) + ((data.last() - center) * (data.last()
            - center)) as nat
    }
}

/// The population variance of the samples about their mean, rounded down;
/// zero for no samples.
pub open spec fn variance_of(data: Seq<u64>) -> nat {
    if data.len() == 0 {
        0
    } else {
        squared_deviations(data, mean_of(data) as int) / data.len()
    }
}

/// `root` is the square root of `value`, rounded down.
pub open spec fn is_floor_sqrt(root: nat, value: nat) -> bool {
    root * root <= value < (root + 1) * (root + 1)
}

/// The largest square of a distance between two samples.
pub open spec fn square_limit() -> int {
    0xffff_ffff_ffff_ffffint * 0xffff_ffff_ffff_ffffint
}

/// The square root of a number, rounded down.
pub fn integer_sqrt(value: u128) -> (root: u64)
    ensures
        is_floor_sqrt(root as nat, value as nat),
{
    let mut low: u128 = 0;
    let mut high: u128 = 0x1_0000_0000_0000_0000;
    assert(0x1_0000_0000_0000_0000 * 0x1_0000_0000_0000_0000 > u128::MAX);
    while high - low > 1
        invariant
            low < high <= 0x1_0000_0000_0000_0000,
            low * low <= value,
            value < high * high,
        decreases high - low,
    {
        let mid = low + (high - low) / 2;
        assert(mid * mid <= 0xffff_ffff_ffff_ffff * 0xffff_ffff_ffff_ffff) by (nonlinear_arith)
            requires
                0 <= mid <= 0xffff_ffff_ffff_ffff,
        ;
        if mid * mid <= value {
            low = mid;
        } else {
            high = mid;
        }
    }
    low as u64
}

proof fn lemma_total_bound(data: Seq<u64>)
    ensures
        total(data) <= data.len() * u64::MAX,
    decreases data.len(),
{
    if data.len() > 0 {
        lemma_total_bound(data.drop_last());
        assert((data.len() - 1) * u64::MAX + u64::MAX == data.len() * u64::MAX) by (nonlinear_arith);
    }
}

proof fn lemma_square_bound(x: u64, center: u64)
    ensures
        0 <= (x - center) * (x - center) <= square_limit(),
{
    let d = x - center;
    assert(0 <= d * d <= 0xffff_ffff_ffff_ffff * 0xffff_ffff_ffff_ffff) by (nonlinear_arith)
        requires
            -0xffff_ffff_ffff_ffff <= d <= 0xffff_ffff_ffff_ffff,
    ;
}

/// The mean and the population standard deviation of the samples, both
/// rounded down to whole units; `(0, 0)` for no samples.
pub fn calculate_stats(data: &Vec<u64>) -> (stats: (u64, u64))
    ensures
        stats.0 == mean_of(data@),
        is_floor_sqrt(stats.1 as nat, variance_of(data@)),
        data@.len() == 0 ==> stats == (0u64, 0u64),
{
    let count = data.len();
    if count == 0 {
        assert(is_floor_sqrt(0, 0)) by (nonlinear_arith);
        return (0, 0);
    }
    let n = count as u128;
    let mut sum: u128 = 0;
    let mut i: usize = 0;
    while i < count
        invariant
            i <= count == data.len(),
            sum == total(data@.take(i as int)),
        decreases count - i,
    {
        proof {
            assert(data@.take(i + 1).drop_last() =~= data@.take(i as int));
            lemma_total_bound(data@.take(i + 1));
            assert((i + 1) * u64::MAX <= u128::MAX) by (nonlinear_arith)
                requires
                    0 <= i + 1 <= u64::MAX,
            ;
        }
        sum = sum + data[i] as u128;
        i += 1;
    }
    proof {
        assert(data@.take(count as int) =~= data@);
        lemma_total_bound(data@);
        assert(sum / n <= u64::MAX) by (nonlinear_arith)
            requires
                0 < n,
                0 <= sum <= n * u64::MAX,
        ;
    }
    let mean = (sum / n) as u64;
    let mut whole: u128 = 0;
    let mut rest: u128 = 0;
    let mut i: usize = 0;
    while i < count
        invariant
            i <= count == data.len(),
            n == count,
            0 < n <= u64::MAX,
            squared_deviations(data@.take(i as int), mean as int) == n * whole + rest,
            n * whole + rest <= i * square_limit(),
            rest <= i * (n - 1),
        decreases count - i,
    {
        let x = data[i];
        let d: u128 = if x >= mean {
            (x - mean) as u128
        } else {
            (mean - x) as u128
        };
        proof {
            lemma_square_bound(x, mean);
            assert(d * d == (x - mean) * (x - mean)) by (nonlinear_arith)
                requires
                    d == x - mean || d == mean - x,
            ;
            assert(square_limit() <= u128::MAX);
        }
        let square = d * d;
        let q = square / n;
        let r = square % n;
        proof {
            assert(data@.take(i + 1).drop_last() =~= data@.take(i as int));
            lemma_fundamental_div_mod(square as int, n as int);
            assert(n * (whole + q) + (rest + r) == (n * whole + rest) + (n * q + r))
                by (nonlinear_arith);
            assert((i + 1) * square_limit() == i * square_limit() + square_limit())
                by (nonlinear_arith);
            assert((i + 1) * (n - 1) == i * (n - 1) + (n - 1)) by (nonlinear_arith);
            assert((i + 1) * (n - 1) <= u128::MAX) by (nonlinear_arith)
                requires
                    0 <= i + 1 <= n <= u64::MAX,
            ;
            assert(whole + q <= square_limit()) by (nonlinear_arith)
                requires
                    n * (whole + q) + (rest + r) <= (i + 1) * square_limit(),
                    0 <= rest + r,
                    0 <= i + 1 <= n,
                    0 < n,
                    0 <= whole + q,
                    0 <= square_limit(),
            ;
        }
        whole = whole + q;
        rest = rest + r;
        i += 1;
    }
    proof {
        assert(data@.take(count as int) =~= data@);
        let sum_of_squares = squared_deviations(data@, mean as int) as int;
        lemma_fundamental_div_mod(rest as int, n as int);
        assert(sum_of_squares == (whole + rest / n) * n + rest % n) by (nonlinear_arith)
            requires
                sum_of_squares == n * whole + rest,
                rest == n * (rest / n) + rest % n,
        ;
        lemma_fundamental_div_mod_converse(
            sum_of_squares,
            n as int,
            whole + rest / n,
            (rest % n) as int,
        );
        assert(square_limit() <= u128::MAX);
        assert(sum_of_squares / (n as int) <= square_limit()) by (nonlinear_arith)
            requires
                0 <= sum_of_squares <= n * square_limit(),
                0 < n,
        ;
    }
    let variance = whole + rest / n;
    (mean, integer_sqrt(variance))
}

} // verus!

//! Statistics over run lengths: sample collection, the sample median and
//! distribution-free confidence intervals for a quantile, read off a sorted
//! sample as order statistics.

use vstd::prelude::*;
use crate::rounds::Mode;
use crate::driver::single_run;

verus! {

/// The sequence is sorted in ascending order.
pub open spec fn sorted_asc(s: Seq<usize>) -> bool {
    forall|i: int, j: int| 0 <= i <= j < s.len() ==> s[i] <= s[j]
}

/// Relies on `<[usize]>::sort_unstable`: sorts the vector in ascending
/// order, rearranging its elements without adding or dropping any.
#[verifier::external_body]
fn sort_in_place(v: &mut Vec<usize>)
    ensures
        final(v)@.to_multiset() == old(v)@.to_multiset(),
        sorted_asc(final(v)@),
{
    v.sort_unstable();
}

fn clone_sample(data: &Vec<usize>) -> (r: Vec<usize>)
    ensures
        r@ == data@,
{
    let mut r: Vec<usize> = Vec::new();
    let mut i: usize = 0;
    while i < data.len()
        invariant
            i <= data@.len(),
            r@.len() == i,
            forall|j: int| 0 <= j < i ==> r@[j] == data@[j],
        decreases data@.len() - i,
    {
        r.push(data[i]);
        i = i + 1;
    }
    proof {
        assert(r@ =~= data@);
    }
    r
}

/// Ascending copy of a sample: the result holds exactly the run lengths of
/// the input, sorted.
pub fn sorted_sample(data: &Vec<usize>) -> (r: Vec<usize>)
    ensures
        r@.to_multiset() == data@.to_multiset(),
        sorted_asc(r@),
        r@.len() == data@.len(),
{
    let mut r = clone_sample(data);
    sort_in_place(&mut r);
    proof {
        broadcast use vstd::seq_lib::group_to_multiset_ensures;

        assert(r@.to_multiset().len() == r@.len());
        assert(data@.to_multiset().len() == data@.len());
    }
    r
}

/// The two central order statistics of a sample: the middle element twice
/// for an odd length, the two elements either side of the middle for an even
/// one. The sample median is exactly the arithmetic mean of the pair; the
/// pair is returned so that the caller owns the (possibly fractional)
/// division by two.
pub fn median_pair(data: &Vec<usize>) -> (r: (usize, usize))
    requires
        data@.len() >= 1,
    ensures
        r.0 == data@[(data@.len() as int - 1) / 2],
        r.1 == data@[data@.len() as int / 2],
        data@.len() % 2 == 1 ==> r.0 == r.1,
{
    let n: usize = data.len();
    (data[(n - 1) / 2], data[n / 2])
}

/// 0-based rank of the interval's lower bound: the raw mark `ceil(n*q -
/// span)` clamped to at least 1, shifted to 0-based, and kept inside the
/// sample.
pub open spec fn ci_lower_index(n: int, lo_ceil: int) -> int {
    let clamped = if lo_ceil < 1 { 1int } else { lo_ceil };
    let zero_based = clamped - 1;
    if zero_based > n - 1 {
        n - 1
    } else {
        zero_based
    }
}

/// 0-based rank of the interval's upper bound: the raw mark `ceil(n*q +
/// span)` shifted to 0-based and clamped into the sample.
pub open spec fn ci_upper_index(n: int, hi_ceil: int) -> int {
    let zero_based = if hi_ceil < 1 { 0int } else { hi_ceil - 1 };
    if zero_based > n - 1 {
        n - 1
    } else {
        zero_based
    }
}

/// Distribution-free confidence interval for a quantile `q`, read off a
/// sorted sample as the pair of order statistics at the clamped marks.
///
/// The two raw marks are `ceil(n*q - span)` and `ceil(n*q + span)` (a
/// negative lower mark already floored to 0 by the caller), where `span = z *
/// sqrt(n*q*(1-q))` and `z` is the standard normal quantile of the confidence
/// level — of `1 - (1-c)/2` for a two-sided interval, of `c` for a one-sided
/// one. Both marks come from the caller: the normal approximation behind them
/// is floating-point work that this library leaves to its presentation
/// layer. A sample of fewer than three values admits no interval.
pub fn confidence_interval(sample: &Vec<usize>, lo_ceil: usize, hi_ceil: usize) -> (r: Option<
    (usize, usize),
>)
    ensures
        r is None <==> sample@.len() < 3,
        sample@.len() >= 3 ==> r == Some(
            (
                sample@[ci_lower_index(sample@.len() as int, lo_ceil as int)],
                sample@[ci_upper_index(sample@.len() as int, hi_ceil as int)],
            ),
        ),
{
    let n: usize = sample.len();
    if n < 3 {
        return None;
    }
    let clamped: usize = if lo_ceil < 1 {
        1
    } else {
        lo_ceil
    };
    let mut li: usize = clamped - 1;
    if li > n - 1 {
        li = n - 1;
    }
    let mut ui: usize = if hi_ceil < 1 {
        0
    } else {
        hi_ceil - 1
    };
    if ui > n - 1 {
        ui = n - 1;
    }
    Some((sample[li], sample[ui]))
}

/// Statistics-session sampling: run `repetitions` independent simulations of
/// a population of `size` processes under `mode` and collect each run's
/// number of rounds (its history length), sorted ascending and ready for the
/// order-statistic summaries. Every collected run length is at least 1.
pub fn sample_run_lengths(repetitions: usize, size: usize, mode: Mode) -> (r: Vec<usize>)
    requires
        size >= 1,
    ensures
        r@.len() == repetitions,
        sorted_asc(r@),
        forall|i: int| 0 <= i < r@.len() ==> r@[i] >= 1,
{
    let mut lengths: Vec<usize> = Vec::new();
    let mut i: usize = 0;
    while i < repetitions
        invariant
            size >= 1,
            i <= repetitions,
            lengths@.len() == i,
            forall|j: int| 0 <= j < i ==> lengths@[j] >= 1,
        decreases repetitions - i,
    {
        let hist = single_run(size, mode);
        lengths.push(hist.len());
        i = i + 1;
    }
    let r = sorted_sample(&lengths);
    proof {
        broadcast use vstd::seq_lib::group_to_multiset_ensures;

        assert forall|k: int| 0 <= k < r@.len() implies r@[k] >= 1 by {
            assert(r@.contains(r@[k]));
            assert(lengths@.to_multiset().count(r@[k]) > 0);
            assert(lengths@.contains(r@[k]));
            let j: int = choose|j: int| 0 <= j < lengths@.len() && lengths@[j] == r@[k];
            assert(lengths@[j] >= 1);
        };
    }
    r
}

} // verus!

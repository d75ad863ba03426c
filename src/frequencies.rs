//! The frequencies an analysis runs over.
use vstd::prelude::*;

verus! {

/// How many frequencies a band holds: `floor((end - start) / width)`, none
/// when the band is empty or reversed.
pub open spec fn frequency_count(start: u64, end: u64, width: u64) -> int {
    if end <= start {
        0
    } else {
        (end - start) / (width as int)
    }
}

/// The `k`-th of `n` frequencies spaced evenly from `start` to `end`, rounded
/// down to a whole millihertz.
pub open spec fn spaced_frequency(start: u64, end: u64, n: int, k: int) -> int {
    if n <= 1 {
        start as int
    } else {
        start + (k * (end - start)) / (n - 1)
    }
}

/// The analysis frequencies, in millihertz, of the band from `start` to
/// `end` with channels of `width`: `frequency_count` of them, spaced evenly
/// with the first at `start` and, when there are two or more, the last at
/// `end`.
pub fn analysis_frequencies(start: u64, end: u64, width: u64) -> (r: Vec<u64>)
    requires
        width > 0,
    ensures
        r@.len() == frequency_count(start, end, width),
        forall|k: int| 0 <= k < r@.len() ==> #[trigger] r@[k] == spaced_frequency(
            start,
            end,
            r@.len() as int,
            k,
        ),
{
    let mut r: Vec<u64> = Vec::new();
    if end <= start {
        return r;
    }
    let span: u64 = end - start;
    let n: u64 = span / width;
    let mut k: u64 = 0;
    while k < n
        invariant
            start < end,
            span == end - start,
            n == frequency_count(start, end, width),
            n <= span,
            k <= n,
            r@.len() == k,
            forall|j: int| 0 <= j < k ==> #[trigger] r@[j] == spaced_frequency(start, end, n as int, j),
        decreases n - k,
    {
        let f: u64 = if n <= 1 {
            start
        } else {
            proof {
                assert((k as int) * (span as int) <= 0xffff_ffff_ffff_ffff * 0xffff_ffff_ffff_ffff)
                    by (nonlinear_arith)
                    requires
                        k <= span,
                        span <= 0xffff_ffff_ffff_ffff,
                ;
            }
            let num: u128 = (k as u128) * (span as u128);
            proof {
                assert((num as int) / ((n - 1) as int) <= span) by (nonlinear_arith)
                    requires
                        num == k * span,
                        k <= n - 1,
                        n >= 2,
                        span >= 0,
                ;
            }
            let step: u128 = num / ((n - 1) as u128);
            start + (step as u64)
        };
        r.push(f);
        k = k + 1;
    }
    r
}

} // verus!

//! Grid-wide aggregates (total and maximum height) and the fixed-bucket
//! equal-width histogram built over the recorded maxima.

use vstd::prelude::*;
use vstd::arithmetic::div_mod::{
    lemma_div_pos_is_pos, lemma_multiply_divide_lt, lemma_mod_pos_bound,
};
use crate::cell::{heights_of, Bacteria};
use crate::rules::max2;

verus! {

/// The smaller of two heights.
pub open spec fn min2(a: u16, b: u16) -> u16 {
    if a < b {
        a
    } else {
        b
    }
}

/// Sum of a sequence of heights; 0 for the empty sequence.
pub open spec fn total_of(h: Seq<u16>) -> int
    decreases h.len(),
{
    if h.len() == 0 {
        0
    } else {
        total_of(h.drop_last()) + h.last()
    }
}

/// Maximum of a sequence of heights; 0 for the empty sequence.
pub open spec fn max_of(h: Seq<u16>) -> u16
    decreases h.len(),
{
    if h.len() == 0 {
        0
    } else {
        max2(max_of(h.drop_last()), h.last())
    }
}

/// Minimum of a sequence of heights; `0xFFFF` for the empty sequence.
pub open spec fn min_of(h: Seq<u16>) -> u16
    decreases h.len(),
{
    if h.len() == 0 {
        0xFFFF
    } else {
        min2(min_of(h.drop_last()), h.last())
    }
}

/// Sum of a sequence of counters; 0 for the empty sequence.
pub open spec fn sum_u64(s: Seq<u64>) -> int
    decreases s.len(),
{
    if s.len() == 0 {
        0
    } else {
        sum_u64(s.drop_last()) + s.last()
    }
}

/// Extending a prefix by one element adds that element to its total.
pub proof fn lemma_total_of_take_succ(h: Seq<u16>, k: int)
    requires
        0 <= k < h.len(),
    ensures
        total_of(h.take(k + 1)) == total_of(h.take(k)) + h[k],
{
    assert(h.take(k + 1).drop_last() =~= h.take(k));
    assert(h.take(k + 1).last() == h[k]);
}

/// Extending a prefix by one element folds that element into its maximum.
pub proof fn lemma_max_of_take_succ(h: Seq<u16>, k: int)
    requires
        0 <= k < h.len(),
    ensures
        max_of(h.take(k + 1)) == max2(max_of(h.take(k)), h[k]),
{
    assert(h.take(k + 1).drop_last() =~= h.take(k));
    assert(h.take(k + 1).last() == h[k]);
}

/// Extending a prefix by one element folds that element into its minimum.
pub proof fn lemma_min_of_take_succ(h: Seq<u16>, k: int)
    requires
        0 <= k < h.len(),
    ensures
        min_of(h.take(k + 1)) == min2(min_of(h.take(k)), h[k]),
{
    assert(h.take(k + 1).drop_last() =~= h.take(k));
    assert(h.take(k + 1).last() == h[k]);
}

/// Every element lies between the sequence's minimum and maximum.
pub proof fn lemma_element_within_bounds(h: Seq<u16>, k: int)
    requires
        0 <= k < h.len(),
    ensures
        h[k] <= max_of(h),
        min_of(h) <= h[k],
    decreases h.len(),
{
    if k == h.len() - 1 {
    } else {
        lemma_element_within_bounds(h.drop_last(), k);
    }
}

/// Total height of a grid of cells.
pub fn total_height(lab: &Vec<Bacteria>) -> (t: u64)
    requires
        lab@.len() <= 0x1_0000_0000,
    ensures
        t == total_of(heights_of(lab@)),
{
    let ghost h = heights_of(lab@);
    let mut t: u64 = 0;
    let mut k: usize = 0;
    while k < lab.len()
        invariant
            0 <= k <= lab@.len(),
            lab@.len() <= 0x1_0000_0000,
            h == heights_of(lab@),
            t == total_of(h.take(k as int)),
            t <= k * 0xFFFF,
        decreases lab@.len() - k,
    {
        proof {
            lemma_total_of_take_succ(h, k as int);
        }
        t = t + lab[k].height as u64;
        k = k + 1;
    }
    proof {
        assert(h.take(lab@.len() as int) =~= h);
    }
    t
}

/// Maximum height of a grid of cells.
pub fn grid_max(lab: &Vec<Bacteria>) -> (m: u16)
    ensures
        m == max_of(heights_of(lab@)),
{
    let ghost h = heights_of(lab@);
    let mut m: u16 = 0;
    let mut k: usize = 0;
    while k < lab.len()
        invariant
            0 <= k <= lab@.len(),
            h == heights_of(lab@),
            m == max_of(h.take(k as int)),
        decreases lab@.len() - k,
    {
        proof {
            lemma_max_of_take_succ(h, k as int);
        }
        let hk = lab[k].height;
        if hk > m {
            m = hk;
        }
        k = k + 1;
    }
    proof {
        assert(h.take(lab@.len() as int) =~= h);
    }
    m
}

/// Maximum of a series of heights.
pub fn max_in(v: &Vec<u16>) -> (m: u16)
    ensures
        m == max_of(v@),
{
    let mut m: u16 = 0;
    let mut k: usize = 0;
    while k < v.len()
        invariant
            0 <= k <= v@.len(),
            m == max_of(v@.take(k as int)),
        decreases v@.len() - k,
    {
        proof {
            lemma_max_of_take_succ(v@, k as int);
        }
        if v[k] > m {
            m = v[k];
        }
        k = k + 1;
    }
    proof {
        assert(v@.take(v@.len() as int) =~= v@);
    }
    m
}

/// Minimum of a series of heights.
pub fn min_in(v: &Vec<u16>) -> (m: u16)
    ensures
        m == min_of(v@),
{
    let mut m: u16 = 0xFFFF;
    let mut k: usize = 0;
    while k < v.len()
        invariant
            0 <= k <= v@.len(),
            m == min_of(v@.take(k as int)),
        decreases v@.len() - k,
    {
        proof {
            lemma_min_of_take_succ(v@, k as int);
        }
        if v[k] < m {
            m = v[k];
        }
        k = k + 1;
    }
    proof {
        assert(v@.take(v@.len() as int) =~= v@);
    }
    m
}

/// Which of `nbins` equal-width buckets over the closed value range
/// `[lo, hi]` the value `v` falls into.
pub open spec fn bucket_of(v: u16, lo: u16, hi: u16, nbins: int) -> int
    recommends
        lo <= v <= hi,
        nbins >= 1,
{
    ((v - lo) * nbins) / (hi - lo + 1)
}

/// A value within the range always lands in a real bucket.
pub proof fn lemma_bucket_of_range(v: u16, lo: u16, hi: u16, nbins: int)
    requires
        lo <= v <= hi,
        nbins >= 1,
    ensures
        0 <= bucket_of(v, lo, hi, nbins) < nbins,
{
    let a = v - lo;
    let d = hi - lo + 1;
    assert(0 <= a * nbins) by (nonlinear_arith)
        requires
            0 <= a,
            1 <= nbins,
    ;
    assert(a * nbins < d * nbins) by (nonlinear_arith)
        requires
            a < d,
            1 <= nbins,
    ;
    lemma_div_pos_is_pos(a * nbins, d);
    lemma_multiply_divide_lt(a * nbins, d, nbins);
}

/// How many of the values in `s` fall into bucket `b`.
pub open spec fn bucket_count(s: Seq<u16>, lo: u16, hi: u16, nbins: int, b: int) -> int
    decreases s.len(),
{
    if s.len() == 0 {
        0
    } else {
        bucket_count(s.drop_last(), lo, hi, nbins, b) + if bucket_of(s.last(), lo, hi, nbins) == b {
            1int
        } else {
            0int
        }
    }
}

/// A bucket never counts more values than the sequence holds.
pub proof fn lemma_bucket_count_le_len(s: Seq<u16>, lo: u16, hi: u16, nbins: int, b: int)
    ensures
        0 <= bucket_count(s, lo, hi, nbins, b) <= s.len(),
    decreases s.len(),
{
    if s.len() > 0 {
        lemma_bucket_count_le_len(s.drop_last(), lo, hi, nbins, b);
    }
}

/// Extending a prefix by one element raises exactly that element's bucket
/// count by one.
pub proof fn lemma_bucket_count_take_succ(s: Seq<u16>, lo: u16, hi: u16, nbins: int, b: int, k: int)
    requires
        0 <= k < s.len(),
    ensures
        bucket_count(s.take(k + 1), lo, hi, nbins, b) == bucket_count(s.take(k), lo, hi, nbins, b)
            + if bucket_of(s[k], lo, hi, nbins) == b {
            1int
        } else {
            0int
        },
{
    assert(s.take(k + 1).drop_last() =~= s.take(k));
    assert(s.take(k + 1).last() == s[k]);
}

/// Raising one counter by one raises the total by one.
pub proof fn lemma_sum_u64_update(s: Seq<u64>, b: int)
    requires
        0 <= b < s.len(),
        s[b] < u64::MAX,
    ensures
        sum_u64(s.update(b, (s[b] + 1) as u64)) == sum_u64(s) + 1,
    decreases s.len(),
{
    let s2 = s.update(b, (s[b] + 1) as u64);
    if b == s.len() - 1 {
        assert(s2.drop_last() =~= s.drop_last());
    } else {
        assert(s2.drop_last() =~= s.drop_last().update(b, (s[b] + 1) as u64));
        lemma_sum_u64_update(s.drop_last(), b);
    }
}

/// Appending a zero counter leaves the total alone.
pub proof fn lemma_sum_u64_push_zero(s: Seq<u64>)
    ensures
        sum_u64(s.push(0)) == sum_u64(s),
{
    assert(s.push(0).drop_last() =~= s);
}

/// An equal-width histogram of `series` with `nbins` buckets over the closed
/// range from the series minimum to its maximum. Every value lands in
/// exactly one bucket, so the bucket counts sum to the series length.
pub fn histogram(series: &Vec<u16>, nbins: usize) -> (r: Vec<u64>)
    requires
        series@.len() >= 1,
        1 <= nbins <= 0xFFFF_FFFF,
    ensures
        r@.len() == nbins,
        forall|b: int|
            0 <= b < nbins ==> r@[b] == bucket_count(
                series@,
                min_of(series@),
                max_of(series@),
                nbins as int,
                b,
            ),
        sum_u64(r@) == series@.len(),
{
    let lo = min_in(series);
    let hi = max_in(series);
    let mut counts: Vec<u64> = Vec::new();
    let mut b: usize = 0;
    while b < nbins
        invariant
            0 <= b <= nbins,
            counts@.len() == b,
            forall|x: int| 0 <= x < b ==> counts@[x] == 0,
            sum_u64(counts@) == 0,
        decreases nbins - b,
    {
        proof {
            lemma_sum_u64_push_zero(counts@);
        }
        counts.push(0);
        b = b + 1;
    }
    let ghost s = series@;
    let mut k: usize = 0;
    while k < series.len()
        invariant
            0 <= k <= s.len(),
            s == series@,
            s.len() >= 1,
            1 <= nbins <= 0xFFFF_FFFF,
            lo == min_of(s),
            hi == max_of(s),
            counts@.len() == nbins,
            forall|x: int|
                0 <= x < nbins ==> counts@[x] == bucket_count(
                    s.take(k as int),
                    lo,
                    hi,
                    nbins as int,
                    x,
                ),
            sum_u64(counts@) == k,
        decreases s.len() - k,
    {
        let v = series[k];
        proof {
            lemma_element_within_bounds(s, k as int);
            lemma_bucket_of_range(v, lo, hi, nbins as int);
        }
        proof {
            let a = v - lo;
            let nb = nbins as int;
            assert(a * nb <= 0xFFFF * 0xFFFF_FFFF) by (nonlinear_arith)
                requires
                    0 <= a <= 0xFFFF,
                    0 <= nb <= 0xFFFF_FFFF,
            ;
        }
        let num: u64 = (v - lo) as u64 * nbins as u64;
        let den: u64 = (hi - lo) as u64 + 1;
        let bx = (num / den) as usize;
        assert(bx as int == bucket_of(v, lo, hi, nbins as int));
        let c = counts[bx];
        proof {
            lemma_bucket_count_le_len(s.take(k as int), lo, hi, nbins as int, bx as int);
            lemma_sum_u64_update(counts@, bx as int);
        }
        counts.set(bx, c + 1);
        proof {
            assert forall|x: int| 0 <= x < nbins implies counts@[x] == bucket_count(
                s.take(k as int + 1),
                lo,
                hi,
                nbins as int,
                x,
            ) by {
                lemma_bucket_count_take_succ(s, lo, hi, nbins as int, x, k as int);
            }
        }
        k = k + 1;
    }
    proof {
        assert(s.take(s.len() as int) =~= s);
    }
    counts
}

} // verus!

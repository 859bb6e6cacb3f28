//! The four statistics over a chronological price series: minimum, maximum,
//! windowed simple moving average, and first-to-last price difference.
//!
//! A series is a `Vec<i64>` of prices in a fixed smallest currency unit,
//! ordered oldest to newest. Every function treats an empty series as
//! "no result" (`None`), a deliberate convention distinct from zero or an
//! error.

use vstd::prelude::*;

use crate::ratio::Ratio;

verus! {

/// `m` is the smallest value of `s`: it occurs in `s` and no value of `s`
/// is below it.
pub open spec fn is_minimum(m: i64, s: Seq<i64>) -> bool {
    &&& s.contains(m)
    &&& forall|i: int| 0 <= i < s.len() ==> m <= s[i]
}

/// `m` is the largest value of `s`: it occurs in `s` and no value of `s`
/// is above it.
pub open spec fn is_maximum(m: i64, s: Seq<i64>) -> bool {
    &&& s.contains(m)
    &&& forall|i: int| 0 <= i < s.len() ==> s[i] <= m
}

/// The smallest value of the series, or `None` exactly when the series is
/// empty.
pub fn min(series: &Vec<i64>) -> (r: Option<i64>)
    ensures
        (r is None) <==> series@.len() == 0,
        r matches Some(m) ==> is_minimum(m, series@),
{
    if series.len() == 0 {
        return None;
    }
    let len: usize = series.len();
    let mut m: i64 = series[0];
    let mut i: usize = 1;
    while i < len
        invariant
            len == series@.len(),
            1 <= i <= len,
            exists|j: int| 0 <= j < i && series@[j] == m,
            forall|j: int| 0 <= j < i ==> m <= series@[j],
        decreases len - i,
    {
        if series[i] < m {
            m = series[i];
        }
        i = i + 1;
    }
    Some(m)
}

/// The largest value of the series, or `None` exactly when the series is
/// empty.
pub fn max(series: &Vec<i64>) -> (r: Option<i64>)
    ensures
        (r is None) <==> series@.len() == 0,
        r matches Some(m) ==> is_maximum(m, series@),
{
    if series.len() == 0 {
        return None;
    }
    let len: usize = series.len();
    let mut m: i64 = series[0];
    let mut i: usize = 1;
    while i < len
        invariant
            len == series@.len(),
            1 <= i <= len,
            exists|j: int| 0 <= j < i && series@[j] == m,
            forall|j: int| 0 <= j < i ==> series@[j] <= m,
        decreases len - i,
    {
        if series[i] > m {
            m = series[i];
        }
        i = i + 1;
    }
    Some(m)
}

/// The sum of `s[lo..hi]` as an unbounded integer.
pub open spec fn range_sum(s: Seq<i64>, lo: int, hi: int) -> int
    decreases hi - lo,
{
    if lo >= hi {
        0
    } else {
        s[lo] + range_sum(s, lo + 1, hi)
    }
}

/// Appending one more element on the right extends a range sum by that
/// element.
pub proof fn lemma_range_sum_extend(s: Seq<i64>, lo: int, hi: int)
    requires
        0 <= lo <= hi < s.len(),
    ensures
        range_sum(s, lo, hi + 1) == range_sum(s, lo, hi) + s[hi],
    decreases hi - lo,
{
    if lo < hi {
        lemma_range_sum_extend(s, lo + 1, hi);
    } else {
        assert(range_sum(s, hi, hi + 1) == s[hi] + range_sum(s, hi + 1, hi + 1));
        assert(range_sum(s, hi + 1, hi + 1) == 0);
    }
}

/// `v` is the sequence of simple moving averages of `s` for window size
/// `n`: one exact mean per window of `n` consecutive values, sliding by one
/// position, in the order the windows occur. The mean over `s[k..k+n]` is
/// the exact ratio `range_sum(s, k, k + n) / n`.
pub open spec fn sma_windows(n: int, s: Seq<i64>, v: Seq<Ratio>) -> bool {
    &&& v.len() == (if s.len() < n {
        0int
    } else {
        s.len() - n + 1
    })
    &&& forall|k: int|
        0 <= k < v.len() ==> (v[k].num as int == range_sum(s, k, k + n) && v[k].den as int == n)
}

/// The simple moving averages of the series for window size `n`, sliding
/// one position at a time.
///
/// The result is `None` exactly when the series is empty or `n <= 1`
/// (a window of one is treated as invalid, not as an identity average).
/// Otherwise it holds one exact mean per window; when `n` exceeds the
/// series length there are zero windows and the result is present but
/// empty.
pub fn n_window_sma(n: usize, series: &Vec<i64>) -> (r: Option<Vec<Ratio>>)
    ensures
        (r is None) <==> (series@.len() == 0 || n <= 1),
        r matches Some(v) ==> sma_windows(n as int, series@, v@),
{
    if series.len() == 0 || n <= 1 {
        return None;
    }
    let len: usize = series.len();
    let mut out: Vec<Ratio> = Vec::new();
    if n <= len {
        let last_start: usize = len - n;
        let mut i: usize = 0;
        while i <= last_start
            invariant
                2 <= n <= len,
                len == series@.len(),
                last_start == len - n,
                i <= last_start + 1,
                out@.len() == i,
                forall|k: int|
                    0 <= k < i ==> (out@[k].num as int == range_sum(series@, k, k + n as int)
                        && out@[k].den as int == n as int),
            decreases last_start + 1 - i,
        {
            let mut acc: i128 = 0;
            let mut j: usize = i;
            while j < i + n
                invariant
                    2 <= n <= len,
                    len == series@.len(),
                    i + n <= len,
                    i <= j <= i + n,
                    acc as int == range_sum(series@, i as int, j as int),
                    (j - i) * (i64::MIN as int) <= acc as int <= (j - i) * (i64::MAX as int),
                decreases i + n - j,
            {
                let x = series[j];
                proof {
                    lemma_range_sum_extend(series@, i as int, j as int);
                }
                acc = acc + x as i128;
                j = j + 1;
            }
            out.push(Ratio { num: acc, den: n as i128 });
            i = i + 1;
        }
    }
    Some(out)
}

/// For a given window size and series the moving-average sequence is
/// unique, so `n_window_sma` is a function of its input alone: any two
/// results for the same input agree.
pub proof fn lemma_sma_unique(n: int, s: Seq<i64>, v1: Seq<Ratio>, v2: Seq<Ratio>)
    requires
        sma_windows(n, s, v1),
        sma_windows(n, s, v2),
    ensures
        v1 == v2,
{
    assert forall|k: int| 0 <= k < v1.len() implies v1[k] == v2[k] by {
        assert(v1[k].num as int == range_sum(s, k, k + n));
        assert(v2[k].num as int == range_sum(s, k, k + n));
    }
    assert(v1 =~= v2);
}

/// `abs` and `rel` are the first-to-last price difference of `s`:
/// `abs` is the last value minus the first, and `rel` is the exact ratio
/// of `abs` to the first value.
pub open spec fn price_diff_values(s: Seq<i64>, abs: i128, rel: Ratio) -> bool {
    &&& abs as int == s.last() - s.first()
    &&& rel.num == abs
    &&& rel.den as int == s.first() as int
}

/// The absolute and relative change from the first value of the series to
/// its last, or `None` exactly when the series is empty.
///
/// A one-value series yields a zero difference, since first and last
/// coincide. When the first value is zero the relative change is a
/// division by zero; the ratio is returned with a zero denominator and it
/// is for the caller to treat that degenerate case.
pub fn price_diff(series: &Vec<i64>) -> (r: Option<(i128, Ratio)>)
    ensures
        (r is None) <==> series@.len() == 0,
        r matches Some(p) ==> price_diff_values(series@, p.0, p.1),
{
    if series.len() == 0 {
        return None;
    }
    let first = series[0];
    let last = series[series.len() - 1];
    let abs: i128 = last as i128 - first as i128;
    Some((abs, Ratio { num: abs, den: first as i128 }))
}

/// The price difference is a function of the series alone: any two results
/// for the same series agree in both components.
pub proof fn lemma_price_diff_unique(s: Seq<i64>, a1: i128, r1: Ratio, a2: i128, r2: Ratio)
    requires
        price_diff_values(s, a1, r1),
        price_diff_values(s, a2, r2),
    ensures
        a1 == a2,
        r1 == r2,
{
}

/// Every value of a series lies between a minimum and a maximum of that
/// series.
pub proof fn lemma_extremes_bound(s: Seq<i64>, mn: i64, mx: i64, i: int)
    requires
        is_minimum(mn, s),
        is_maximum(mx, s),
        0 <= i < s.len(),
    ensures
        mn <= s[i] <= mx,
{
}

/// A series has at most one smallest value, so `min` is a function of its
/// input alone: any two results for the same series agree.
pub proof fn lemma_minimum_unique(s: Seq<i64>, m1: i64, m2: i64)
    requires
        is_minimum(m1, s),
        is_minimum(m2, s),
    ensures
        m1 == m2,
{
    let j1 = choose|j: int| 0 <= j < s.len() && s[j] == m1;
    let j2 = choose|j: int| 0 <= j < s.len() && s[j] == m2;
    assert(m1 <= s[j2]);
    assert(m2 <= s[j1]);
}

/// A series has at most one largest value, so `max` is a function of its
/// input alone: any two results for the same series agree.
pub proof fn lemma_maximum_unique(s: Seq<i64>, m1: i64, m2: i64)
    requires
        is_maximum(m1, s),
        is_maximum(m2, s),
    ensures
        m1 == m2,
{
    let j1 = choose|j: int| 0 <= j < s.len() && s[j] == m1;
    let j2 = choose|j: int| 0 <= j < s.len() && s[j] == m2;
    assert(s[j2] <= m1);
    assert(s[j1] <= m2);
}

} // verus!

//! Rolling windows over a power stream.
//!
//! Normalized power is the fourth root of the mean, over all windows, of the
//! fourth power of each window's mean. This module fixes the windows and
//! their exact sums; raising to powers is left to the caller.

use vstd::prelude::*;

verus! {

/// The longest rolling window, in samples.
pub const WINDOW: usize = 30;

/// The number of samples in one rolling window over a series of `len`
/// samples: the whole series where it is shorter than the longest window.
pub open spec fn window_len(len: nat) -> nat {
    if len < WINDOW {
        len
    } else {
        WINDOW as nat
    }
}

/// The number of windows over a series of `len` samples.
pub open spec fn window_count(len: nat) -> nat {
    if len == 0 {
        0
    } else {
        (len - window_len(len) + 1) as nat
    }
}

/// The sum of the samples at positions `from` up to, not including, `to`.
pub open spec fn range_sum(s: Seq<i64>, from: int, to: int) -> int
    decreases to - from,
{
    if to <= from {
        0
    } else {
        range_sum(s, from, to - 1) + s[to - 1]
    }
}

/// The sum of all samples.
pub open spec fn series_sum(s: Seq<i64>) -> int {
    range_sum(s, 0, s.len() as int)
}

/// The sum of each rolling window, first window first.
pub open spec fn window_sums(s: Seq<i64>) -> Seq<int> {
    Seq::new(
        window_count(s.len()),
        |k: int| range_sum(s, k, k + window_len(s.len())),
    )
}

/// The rolling windows of a power stream.
#[derive(Debug, Clone)]
pub struct PowerWindows {
    /// The number of samples in each window.
    pub window: usize,
    /// The sum of each window, first window first.
    pub sums: Vec<i128>,
}

impl PowerWindows {
    /// Whether these are the windows of the series `s`.
    pub open spec fn is_windows_of(self, s: Seq<i64>) -> bool {
        &&& self.window == window_len(s.len())
        &&& self.sums@.len() == window_count(s.len())
        &&& forall|k: int|
            0 <= k < self.sums@.len() ==> #[trigger] self.sums@[k] == window_sums(s)[k]
    }
}

/// A sum of samples is bounded by the number of samples.
pub proof fn lemma_range_sum_bounds(s: Seq<i64>, from: int, to: int)
    requires
        0 <= from <= to <= s.len(),
    ensures
        -(to - from) * 0x8000_0000_0000_0000 <= range_sum(s, from, to) <= (to - from)
            * 0x7FFF_FFFF_FFFF_FFFF,
    decreases to - from,
{
    if from < to {
        lemma_range_sum_bounds(s, from, to - 1);
        assert(-(to - from) * 0x8000_0000_0000_0000 == -(to - 1 - from) * 0x8000_0000_0000_0000
            - 0x8000_0000_0000_0000) by (nonlinear_arith);
        assert((to - from) * 0x7FFF_FFFF_FFFF_FFFF == (to - 1 - from) * 0x7FFF_FFFF_FFFF_FFFF
            + 0x7FFF_FFFF_FFFF_FFFF) by (nonlinear_arith);
    }
}

/// Moving a window one sample on adds the entering sample and drops the
/// leaving one.
pub proof fn lemma_range_sum_slide(s: Seq<i64>, from: int, to: int)
    requires
        0 <= from < to < s.len(),
    ensures
        range_sum(s, from + 1, to + 1) == range_sum(s, from, to) + s[to] - s[from],
    decreases to - from,
{
    if from + 1 < to {
        lemma_range_sum_slide(s, from, to - 1);
    } else {
        assert(range_sum(s, from, to - 1) == 0);
        assert(range_sum(s, from + 1, to) == 0);
    }
}

/// The windows of a power stream and their sums.
///
/// An empty stream has no window. A stream shorter than 30 samples has one
/// window, the whole stream. No sum overflows, whatever the samples.
pub fn rolling_windows(power: &[i64]) -> (r: PowerWindows)
    ensures
        r.is_windows_of(power@),
{
    let len = power.len();
    let window: usize = if len < WINDOW {
        len
    } else {
        WINDOW
    };
    let mut sums: Vec<i128> = Vec::new();
    if len == 0 {
        return PowerWindows { window, sums };
    }
    let mut sum: i128 = 0;
    let mut i: usize = 0;
    while i < window
        invariant
            i <= window <= len,
            len == power@.len(),
            window <= 30,
            sum == range_sum(power@, 0, i as int),
        decreases window - i,
    {
        proof {
            lemma_range_sum_bounds(power@, 0, i as int);
        }
        sum = sum + power[i] as i128;
        i = i + 1;
    }
    sums.push(sum);
    let mut end: usize = window;
    while end < len
        invariant
            1 <= window <= end <= len,
            window <= 30,
            window == window_len(power@.len()),
            len == power@.len(),
            sums@.len() == end - window + 1,
            sum == range_sum(power@, end - window, end as int),
            forall|k: int|
                0 <= k < sums@.len() ==> #[trigger] sums@[k] == range_sum(
                    power@,
                    k,
                    k + window,
                ),
        decreases len - end,
    {
        proof {
            lemma_range_sum_slide(power@, end - window, end as int);
            lemma_range_sum_bounds(power@, end - window, end as int);
            lemma_range_sum_bounds(power@, end - window + 1, end + 1);
        }
        sum = sum + power[end] as i128 - power[end - window] as i128;
        sums.push(sum);
        end = end + 1;
    }
    PowerWindows { window, sums }
}

/// The exact sum of a series of samples.
pub fn series_total(samples: &[i64]) -> (r: i128)
    ensures
        r == series_sum(samples@),
{
    let mut sum: i128 = 0;
    let mut i: usize = 0;
    while i < samples.len()
        invariant
            i <= samples@.len(),
            sum == range_sum(samples@, 0, i as int),
        decreases samples@.len() - i,
    {
        proof {
            lemma_range_sum_bounds(samples@, 0, i as int);
            lemma_range_sum_bounds(samples@, 0, i + 1);
            assert(i * 0x8000_0000_0000_0000 <= 0xFFFF_FFFF_FFFF_FFFF * 0x8000_0000_0000_0000)
                by (nonlinear_arith)
                requires
                    i <= 0xFFFF_FFFF_FFFF_FFFF,
            ;
            assert((i + 1) * 0x8000_0000_0000_0000 <= 0xFFFF_FFFF_FFFF_FFFF
                * 0x8000_0000_0000_0000) by (nonlinear_arith)
                requires
                    i + 1 <= 0xFFFF_FFFF_FFFF_FFFF,
            ;
            assert(i * 0x7FFF_FFFF_FFFF_FFFF <= 0xFFFF_FFFF_FFFF_FFFF * 0x7FFF_FFFF_FFFF_FFFF)
                by (nonlinear_arith)
                requires
                    i <= 0xFFFF_FFFF_FFFF_FFFF,
            ;
            assert((i + 1) * 0x7FFF_FFFF_FFFF_FFFF <= 0xFFFF_FFFF_FFFF_FFFF
                * 0x7FFF_FFFF_FFFF_FFFF) by (nonlinear_arith)
                requires
                    i + 1 <= 0xFFFF_FFFF_FFFF_FFFF,
            ;
        }
        sum = sum + samples[i] as i128;
        i = i + 1;
    }
    sum
}

/// The sum of a run of equal samples is the sample times the length of the
/// run.
pub proof fn lemma_range_sum_constant(s: Seq<i64>, c: i64, from: int, to: int)
    requires
        0 <= from <= to <= s.len(),
        forall|i: int| from <= i < to ==> s[i] == c,
    ensures
        range_sum(s, from, to) == c * (to - from),
    decreases to - from,
{
    if from < to {
        lemma_range_sum_constant(s, c, from, to - 1);
        assert(c * (to - from) == c * (to - 1 - from) + c) by (nonlinear_arith);
    } else {
        assert(c * (to - from) == 0) by (nonlinear_arith)
            requires
                to == from,
        ;
    }
}

/// Every window of a constant series sums to the constant times the window
/// length, so every window has the constant as its mean.
pub proof fn lemma_constant_series_windows(s: Seq<i64>, c: i64)
    requires
        s.len() >= 1,
        forall|i: int| 0 <= i < s.len() ==> s[i] == c,
    ensures
        window_sums(s).len() >= 1,
        forall|k: int|
            0 <= k < window_sums(s).len() ==> #[trigger] window_sums(s)[k] == c * window_len(
                s.len(),
            ),
{
    let w = window_len(s.len());
    assert forall|k: int| 0 <= k < window_sums(s).len() implies #[trigger] window_sums(s)[k] == c
        * w by {
        lemma_range_sum_constant(s, c, k, k + w);
    }
}

/// A series shorter than the longest window has a single window: the whole
/// series.
pub proof fn lemma_short_series_window(s: Seq<i64>)
    requires
        1 <= s.len() < WINDOW,
    ensures
        window_len(s.len()) == s.len(),
        window_sums(s).len() == 1,
        window_sums(s)[0] == series_sum(s),
{
}

/// The sum of a run of positive samples is positive.
pub proof fn lemma_range_sum_positive(s: Seq<i64>, from: int, to: int)
    requires
        0 <= from < to <= s.len(),
        forall|i: int| from <= i < to ==> s[i] > 0,
    ensures
        range_sum(s, from, to) > 0,
    decreases to - from,
{
    if from + 1 < to {
        lemma_range_sum_positive(s, from, to - 1);
    } else {
        assert(range_sum(s, from, to - 1) == 0);
    }
}

/// Where every sample is positive, every window sum is positive.
pub proof fn lemma_positive_series_windows(s: Seq<i64>)
    requires
        s.len() >= 1,
        forall|i: int| 0 <= i < s.len() ==> s[i] > 0,
    ensures
        forall|k: int| 0 <= k < window_sums(s).len() ==> #[trigger] window_sums(s)[k] > 0,
{
    let w = window_len(s.len());
    assert forall|k: int| 0 <= k < window_sums(s).len() implies #[trigger] window_sums(s)[k]
        > 0 by {
        lemma_range_sum_positive(s, k, k + w);
    }
}

/// The sum of the fourth powers of the first `n` window sums.
pub open spec fn fourth_power_sum(sums: Seq<int>, n: int) -> int
    decreases n,
{
    if n <= 0 {
        0
    } else {
        fourth_power_sum(sums, n - 1) + sums[n - 1] * sums[n - 1] * sums[n - 1] * sums[n - 1]
    }
}

/// In exact arithmetic the normalized power of a constant series is the
/// constant: the mean of the fourth powers of the window means is the
/// fourth power of the constant. With `w` samples per window and `k`
/// windows, the fourth powers of the window sums add up to
/// `k * (c * w)^4`.
pub proof fn lemma_constant_series_power(s: Seq<i64>, c: i64, n: int)
    requires
        s.len() >= 1,
        forall|i: int| 0 <= i < s.len() ==> s[i] == c,
        0 <= n <= window_count(s.len()),
    ensures
        fourth_power_sum(window_sums(s), n) == n * ((c * window_len(s.len())) * (c * window_len(
            s.len(),
        )) * (c * window_len(s.len())) * (c * window_len(s.len()))),
    decreases n,
{
    let m = c * window_len(s.len());
    let p = m * m * m * m;
    if n > 0 {
        lemma_constant_series_power(s, c, n - 1);
        lemma_constant_series_windows(s, c);
        assert(n * p == (n - 1) * p + p) by (nonlinear_arith);
    } else {
        assert(n * p == 0) by (nonlinear_arith)
            requires
                n == 0,
        ;
    }
}

} // verus!

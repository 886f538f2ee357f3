//! Signals over a series of closing prices: the lowest and the highest price,
//! the change from the first to the last price, and the moving average.

use vstd::prelude::*;
use crate::rounding::{lemma_nearest_bounded, lemma_round_div_is_nearest, magnitude_of, round_div,
    rounded_quotient};

verus! {

/// The number of basis points in a ratio of one.
pub const BASIS_POINTS: i128 = 10000;

/// The smallest value of a series; 0 for the empty series.
pub open spec fn series_min(s: Seq<i64>) -> int
    decreases s.len(),
{
    if s.len() == 0 {
        0
    } else if s.len() == 1 {
        s[0] as int
    } else {
        let rest = series_min(s.drop_last());
        if s.last() < rest {
            s.last() as int
        } else {
            rest
        }
    }
}

/// The largest value of a series; 0 for the empty series.
pub open spec fn series_max(s: Seq<i64>) -> int
    decreases s.len(),
{
    if s.len() == 0 {
        0
    } else if s.len() == 1 {
        s[0] as int
    } else {
        let rest = series_max(s.drop_last());
        if s.last() > rest {
            s.last() as int
        } else {
            rest
        }
    }
}

/// The lowest price of a series.
pub struct MinPrice {}

/// The highest price of a series.
pub struct MaxPrice {}

impl MinPrice {
    /// The smallest price of `series`, and nothing for an empty series.
    pub fn calculate(&self, series: &[i64]) -> (lowest: Option<i64>)
        ensures
            series@.len() == 0 <==> lowest is None,
            lowest matches Some(m) ==> m == series_min(series@),
            lowest matches Some(m) ==> forall|i: int|
                0 <= i < series@.len() ==> m <= #[trigger] series@[i],
            lowest matches Some(m) ==> exists|i: int| 0 <= i < series@.len() && series@[i] == m,
    {
        if series.len() == 0 {
            return None;
        }
        proof {
            lemma_min_max_bound(series@);
        }
        let mut lowest: i64 = series[0];
        let mut i: usize = 1;
        while i < series.len()
            invariant
                1 <= i <= series@.len(),
                lowest == series_min(series@.take(i as int)),
            decreases series@.len() - i,
        {
            assert(series@.take(i + 1).drop_last() =~= series@.take(i as int));
            if series[i] < lowest {
                lowest = series[i];
            }
            i += 1;
        }
        assert(series@.take(i as int) =~= series@);
        Some(lowest)
    }
}

impl MaxPrice {
    /// The largest price of `series`, and nothing for an empty series.
    pub fn calculate(&self, series: &[i64]) -> (highest: Option<i64>)
        ensures
            series@.len() == 0 <==> highest is None,
            highest matches Some(m) ==> m == series_max(series@),
            highest matches Some(m) ==> forall|i: int|
                0 <= i < series@.len() ==> #[trigger] series@[i] <= m,
            highest matches Some(m) ==> exists|i: int| 0 <= i < series@.len() && series@[i] == m,
    {
        if series.len() == 0 {
            return None;
        }
        proof {
            lemma_min_max_bound(series@);
        }
        let mut highest: i64 = series[0];
        let mut i: usize = 1;
        while i < series.len()
            invariant
                1 <= i <= series@.len(),
                highest == series_max(series@.take(i as int)),
            decreases series@.len() - i,
        {
            assert(series@.take(i + 1).drop_last() =~= series@.take(i as int));
            if series[i] > highest {
                highest = series[i];
            }
            i += 1;
        }
        assert(series@.take(i as int) =~= series@);
        Some(highest)
    }
}

/// Every value of a series lies between the series' smallest and largest
/// value, and both are values of the series.
pub proof fn lemma_min_max_bound(s: Seq<i64>)
    requires
        s.len() > 0,
    ensures
        forall|i: int| 0 <= i < s.len() ==> series_min(s) <= #[trigger] s[i] <= series_max(s),
        exists|i: int| 0 <= i < s.len() && s[i] == series_min(s),
        exists|i: int| 0 <= i < s.len() && s[i] == series_max(s),
    decreases s.len(),
{
    if s.len() == 1 {
        assert(s[0] == series_max(s));
    } else {
        let head = s.drop_last();
        lemma_min_max_bound(head);
        assert forall|i: int| 0 <= i < s.len() implies series_min(s) <= #[trigger] s[i]
            <= series_max(s) by {
            if i < s.len() - 1 {
                assert(head[i] == s[i]);
            }
        }
        let lo = choose|i: int| 0 <= i < head.len() && head[i] == series_min(head);
        let hi = choose|i: int| 0 <= i < head.len() && head[i] == series_max(head);
    }
}

/// The change from a first to a last price as a share of the first, in basis
/// points rounded to the nearest one. A change from a first price of zero has
/// no share and counts as 0.
pub open spec fn relative_change(first: int, last: int) -> int {
    if first == 0 {
        0
    } else {
        round_div((last - first) * BASIS_POINTS, first)
    }
}

/// A price that stays as it is has a relative change of 0.
pub proof fn lemma_unchanged_price(price: int)
    ensures
        relative_change(price, price) == 0,
{
    if price != 0 {
        lemma_nearest_bounded(0, magnitude_of(price), 0);
    }
}

/// The change between the first and the last price of a series.
pub struct PriceDifference {}

impl PriceDifference {
    /// The change from the first to the last price of `series`: first the
    /// difference in cents, then the difference as a share of the first price
    /// in basis points. Nothing for an empty series.
    pub fn calculate(&self, series: &[i64]) -> (change: Option<(i128, i128)>)
        ensures
            series@.len() == 0 <==> change is None,
            change matches Some((absolute, relative)) ==> {
                &&& absolute == series@.last() - series@.first()
                &&& relative == relative_change(series@.first() as int, series@.last() as int)
            },
            series@.len() == 1 ==> change == Some((0i128, 0i128)),
    {
        let n = series.len();
        if n == 0 {
            return None;
        }
        proof {
            lemma_unchanged_price(series@.first() as int);
        }
        let first: i128 = series[0] as i128;
        let last: i128 = series[n - 1] as i128;
        let absolute: i128 = last - first;
        if first == 0 {
            return Some((absolute, 0));
        }
        let scaled: i128 = absolute * BASIS_POINTS;
        proof {
            let size = magnitude_of(scaled as int);
            let by = magnitude_of(first as int);
            assert(size <= by * size) by (nonlinear_arith)
                requires
                    size >= 0,
                    by >= 1,
            ;
            lemma_nearest_bounded(size, by, size);
        }
        Some((absolute, rounded_quotient(scaled, first)))
    }
}

/// The sum of a series.
pub open spec fn series_sum(s: Seq<i64>) -> int
    decreases s.len(),
{
    if s.len() == 0 {
        0
    } else {
        series_sum(s.drop_last()) + s.last()
    }
}

/// The mean of the `window` values of `s` from index `start` on, rounded to
/// the nearest whole number.
pub open spec fn window_mean(s: Seq<i64>, start: int, window: int) -> int {
    round_div(series_sum(s.subrange(start, start + window)), window)
}

/// The means of all runs of `window` successive values of `s`, in the order
/// of their first values. There is none where `s` is shorter than `window`.
pub open spec fn moving_average(s: Seq<i64>, window: int) -> Seq<int> {
    if window <= 0 || s.len() < window {
        Seq::empty()
    } else {
        Seq::new((s.len() - window + 1) as nat, |i: int| window_mean(s, i, window))
    }
}

/// A window's mean is the whole number nearest to the exact mean: twice its
/// distance from the sum divided by the window's size is at most one.
pub proof fn lemma_window_mean_is_nearest(s: Seq<i64>, start: int, window: int)
    requires
        window > 0,
    ensures
        2 * magnitude_of(
            window_mean(s, start, window) * window - series_sum(
                s.subrange(start, start + window),
            ),
        ) <= window,
{
    lemma_round_div_is_nearest(series_sum(s.subrange(start, start + window)), window);
}

/// The sum of a series lies between its length times the least and its
/// length times the greatest value that a price can have.
pub proof fn lemma_sum_bounds(s: Seq<i64>)
    ensures
        s.len() * i64::MIN <= series_sum(s) <= s.len() * i64::MAX,
    decreases s.len(),
{
    if s.len() > 0 {
        lemma_sum_bounds(s.drop_last());
        assert((s.len() - 1) * i64::MIN + i64::MIN == s.len() * i64::MIN) by (nonlinear_arith);
        assert((s.len() - 1) * i64::MAX + i64::MAX == s.len() * i64::MAX) by (nonlinear_arith);
    }
}

/// The sum of a series is its first value plus the sum of the rest.
pub proof fn lemma_sum_from_first(s: Seq<i64>)
    requires
        s.len() > 0,
    ensures
        series_sum(s) == s.first() + series_sum(s.drop_first()),
    decreases s.len(),
{
    if s.len() == 1 {
        assert(s.drop_last() =~= Seq::<i64>::empty());
        assert(s.drop_first() =~= Seq::<i64>::empty());
    } else {
        lemma_sum_from_first(s.drop_last());
        assert(s.drop_last().drop_first() =~= s.drop_first().drop_last());
    }
}

/// Moving a window one place on takes its first value out of the sum and
/// the value behind it in.
pub proof fn lemma_sum_slides(s: Seq<i64>, start: int, window: int)
    requires
        0 <= start,
        0 < window,
        start + window < s.len(),
    ensures
        series_sum(s.subrange(start + 1, start + window + 1)) == series_sum(
            s.subrange(start, start + window),
        ) - s[start] + s[start + window],
{
    let before = s.subrange(start, start + window);
    let after = s.subrange(start + 1, start + window + 1);
    lemma_sum_from_first(before);
    assert(before.drop_first() =~= s.subrange(start + 1, start + window));
    assert(after.drop_last() =~= s.subrange(start + 1, start + window));
}

/// The mean of a series of prices is itself a price: it lies between the
/// least and the greatest value that a price can have.
pub proof fn lemma_mean_is_price(s: Seq<i64>)
    requires
        s.len() > 0,
    ensures
        i64::MIN <= round_div(series_sum(s), s.len() as int) <= i64::MAX,
{
    lemma_sum_bounds(s);
    let total = series_sum(s);
    let n = s.len() as int;
    if total >= 0 {
        lemma_nearest_bounded(total, n, i64::MAX as int);
    } else {
        assert(-total <= n * 0x8000_0000_0000_0000) by (nonlinear_arith)
            requires
                n * i64::MIN <= total,
        ;
        lemma_nearest_bounded(-total, n, 0x8000_0000_0000_0000);
    }
}

/// The mean of `window` prices whose sum is `total`.
fn mean_of(total: i128, window: usize, Ghost(s): Ghost<Seq<i64>>) -> (mean: i64)
    requires
        s.len() == window,
        window > 0,
        total == series_sum(s),
    ensures
        mean == round_div(series_sum(s), window as int),
{
    proof {
        lemma_mean_is_price(s);
    }
    let mean: i128 = rounded_quotient(total, window as i128);
    mean as i64
}

/// The simple moving average over a window of fixed size.
pub struct WindowedSMA {
    pub window_size: usize,
}

impl WindowedSMA {
    /// The means of all runs of `window_size` successive prices of `series`,
    /// each rounded to the nearest cent, in the order of the runs. A series
    /// shorter than the window has none, and a window of no prices has no
    /// mean.
    pub fn calculate(&self, series: &[i64]) -> (averages: Vec<i64>)
        ensures
            series@.len() < self.window_size || self.window_size == 0 ==> averages@.len() == 0,
            series@.len() >= self.window_size > 0 ==> averages@.len() == series@.len()
                - self.window_size + 1,
            forall|i: int|
                0 <= i < averages@.len() ==> #[trigger] averages@[i] == window_mean(
                    series@,
                    i,
                    self.window_size as int,
                ),
            averages@.map_values(|mean: i64| mean as int) == moving_average(
                series@,
                self.window_size as int,
            ),
    {
        let n = series.len();
        let window = self.window_size;
        let mut averages: Vec<i64> = Vec::new();
        if window == 0 || n < window {
            return averages;
        }
        let mut total: i128 = 0;
        let mut k: usize = 0;
        while k < window
            invariant
                k <= window <= n,
                n == series@.len(),
                total == series_sum(series@.subrange(0, k as int)),
            decreases window - k,
        {
            proof {
                lemma_sum_bounds(series@.subrange(0, k as int));
                assert(series@.subrange(0, k + 1).drop_last() =~= series@.subrange(0, k as int));
                assert(k * i64::MIN >= 0x1_0000_0000_0000_0000 * i64::MIN) by (nonlinear_arith)
                    requires
                        0 <= k < 0x1_0000_0000_0000_0000,
                ;
                assert(k * i64::MAX <= 0x1_0000_0000_0000_0000 * i64::MAX) by (nonlinear_arith)
                    requires
                        0 <= k < 0x1_0000_0000_0000_0000,
                ;
            }
            total = total + series[k] as i128;
            k += 1;
        }
        let count: usize = n - window + 1;
        let mut start: usize = 0;
        while start < count
            invariant
                0 < window <= n,
                n == series@.len(),
                count == n - window + 1,
                start <= count,
                start < count ==> total == series_sum(
                    series@.subrange(start as int, start + window),
                ),
                averages@.len() == start,
                forall|i: int|
                    0 <= i < start ==> #[trigger] averages@[i] == window_mean(
                        series@,
                        i,
                        window as int,
                    ),
            decreases count - start,
        {
            let mean = mean_of(
                total,
                window,
                Ghost(series@.subrange(start as int, start + window)),
            );
            averages.push(mean);
            if start + 1 < count {
                proof {
                    lemma_sum_slides(series@, start as int, window as int);
                    lemma_sum_bounds(series@.subrange(start + 1, start + window + 1));
                    lemma_sum_bounds(series@.subrange(start as int, start + window));
                    assert(window * i64::MIN >= 0x1_0000_0000_0000_0000 * i64::MIN)
                        by (nonlinear_arith)
                        requires
                            0 <= window < 0x1_0000_0000_0000_0000,
                    ;
                    assert(window * i64::MAX <= 0x1_0000_0000_0000_0000 * i64::MAX)
                        by (nonlinear_arith)
                        requires
                            0 <= window < 0x1_0000_0000_0000_0000,
                    ;
                }
                let change: i128 = series[start + window] as i128 - series[start] as i128;
                total = total + change;
            }
            start += 1;
        }
        assert(averages@.map_values(|mean: i64| mean as int) =~= moving_average(
            series@,
            window as int,
        ));
        averages
    }
}

} // verus!

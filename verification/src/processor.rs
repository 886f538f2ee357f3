//! The reduction of a fetched price series to its performance indicators.

use vstd::prelude::*;
use vstd::seq_lib::to_multiset_len;
use crate::messages::{Indicators, PerformanceIndicators, PricePoint, Quotes};
use crate::signal::{lemma_min_max_bound, moving_average, relative_change, series_max, series_min,
    MaxPrice, MinPrice, PriceDifference, WindowedSMA};
use crate::time_order::{distinct_times, lemma_sorted_keeps_points,
    lemma_sorted_whatever_the_order, sort_by_time, sorted_by_time};

verus! {

/// The number of prices that the moving average runs over.
pub const WINDOW_SIZE: usize = 30;

/// The closing prices of a series of points, in the order of the points.
pub open spec fn closes_of(points: Seq<PricePoint>) -> Seq<i64> {
    points.map_values(|p: PricePoint| p.close)
}

/// The last value of a series of averages; 0 where there is none.
pub open spec fn last_or_zero(averages: Seq<int>) -> int {
    if averages.len() == 0 {
        0
    } else {
        averages.last()
    }
}

/// The indicators of the series `points` fetched for `symbol`: time and
/// price of the latest point, the change from the earliest to the latest
/// price, the lowest and the highest price, and the mean of the latest
/// `WINDOW_SIZE` prices. An empty series has none.
pub open spec fn indicators_of(symbol: Seq<char>, points: Seq<PricePoint>) -> Option<Indicators> {
    if points.len() == 0 {
        None
    } else {
        let sorted = sorted_by_time(points);
        let closes = closes_of(sorted);
        Some(
            Indicators {
                symbol,
                timestamp: sorted.last().timestamp as int,
                price: closes.last() as int,
                pct_change: relative_change(closes.first() as int, closes.last() as int),
                period_min: series_min(closes),
                period_max: series_max(closes),
                last_sma: last_or_zero(moving_average(closes, WINDOW_SIZE as int)),
            },
        )
    }
}

/// The latest price of a series is neither below the lowest nor above the
/// highest price of its period.
pub proof fn lemma_price_within_period(symbol: Seq<char>, points: Seq<PricePoint>)
    requires
        points.len() > 0,
    ensures
        indicators_of(symbol, points) matches Some(indicators) && indicators.period_min
            <= indicators.price <= indicators.period_max,
{
    lemma_sorted_keeps_points(points);
    let closes = closes_of(sorted_by_time(points));
    lemma_min_max_bound(closes);
}

/// Series that hold the same points, no two of them of one timestamp, have
/// the same indicators, in whatever order each holds its points.
pub proof fn lemma_indicators_whatever_the_order(
    symbol: Seq<char>,
    a: Seq<PricePoint>,
    b: Seq<PricePoint>,
)
    requires
        distinct_times(a),
        a.to_multiset() == b.to_multiset(),
    ensures
        indicators_of(symbol, a) == indicators_of(symbol, b),
{
    to_multiset_len(a);
    to_multiset_len(b);
    lemma_sorted_whatever_the_order(a, b);
}

/// A series of points of distinct timestamps has the indicators of the same
/// series in reverse: one that arrives from the earliest to the latest point
/// reduces as one that arrives from the latest to the earliest.
pub proof fn lemma_indicators_of_reversed(symbol: Seq<char>, points: Seq<PricePoint>)
    requires
        distinct_times(points),
    ensures
        indicators_of(symbol, points) == indicators_of(symbol, points.reverse()),
{
    points.lemma_reverse_to_multiset();
    lemma_indicators_whatever_the_order(symbol, points, points.reverse());
}

/// The stage that reduces each fetched series to its indicators.
pub struct StockDataProcessor;

impl StockDataProcessor {
    /// Reduces a fetched series to its indicators. An empty series gives
    /// none; any other gives the indicators of its points in time order.
    pub fn handle(&mut self, msg: Quotes) -> (snapshot: Option<PerformanceIndicators>)
        ensures
            msg.quotes@.len() == 0 <==> snapshot is None,
            indicators_of(msg.symbol@, msg.quotes@) == match snapshot {
                Some(indicators) => Some(indicators@),
                None => None,
            },
    {
        let Quotes { symbol, quotes } = msg;
        let mut data = quotes;
        if data.len() == 0 {
            return None;
        }
        proof {
            lemma_sorted_keeps_points(data@);
        }
        sort_by_time(&mut data);
        let n = data.len();
        let mut closes: Vec<i64> = Vec::new();
        let mut i: usize = 0;
        while i < n
            invariant
                i <= n,
                n == data@.len(),
                closes@ == closes_of(data@.take(i as int)),
            decreases n - i,
        {
            closes.push(data[i].close);
            i += 1;
        }
        assert(data@.take(n as int) =~= data@);
        let period_max: i64 = match (MaxPrice {}).calculate(closes.as_slice()) {
            Some(highest) => highest,
            None => 0,
        };
        let period_min: i64 = match (MinPrice {}).calculate(closes.as_slice()) {
            Some(lowest) => lowest,
            None => 0,
        };
        let pct_change: i128 = match (PriceDifference {}).calculate(closes.as_slice()) {
            Some((_, relative)) => relative,
            None => 0,
        };
        let averages = (WindowedSMA { window_size: WINDOW_SIZE }).calculate(closes.as_slice());
        let last_sma: i64 = if averages.len() == 0 {
            0
        } else {
            averages[averages.len() - 1]
        };
        Some(
            PerformanceIndicators {
                symbol,
                timestamp: data[n - 1].timestamp,
                price: closes[n - 1],
                pct_change,
                period_min,
                period_max,
                last_sma,
            },
        )
    }
}

} // verus!

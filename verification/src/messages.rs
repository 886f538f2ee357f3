//! The messages that pass between the stages.

use vstd::prelude::*;

verus! {

/// One observed closing price.
#[derive(Clone, Copy, Debug, PartialEq, Eq)]
pub struct PricePoint {
    /// Seconds since the Unix epoch.
    pub timestamp: i64,
    /// The closing price in cents.
    pub close: i64,
}

/// The price points fetched for one symbol, in no particular order. A fetch
/// that failed is an empty series.
#[derive(Clone, Debug, Default, PartialEq, Eq)]
pub struct Quotes {
    pub symbol: String,
    pub quotes: Vec<PricePoint>,
}

/// The instruction to fetch the prices of one symbol over a period, both
/// ends in seconds since the Unix epoch.
#[derive(Clone, Debug, PartialEq, Eq)]
pub struct QuoteRequest {
    pub symbol: String,
    pub from: i64,
    pub to: i64,
}

/// Performance indicators of one symbol's price series.
#[derive(Debug, PartialEq, Eq)]
pub struct PerformanceIndicators {
    pub symbol: String,
    /// The time of the latest price, in seconds since the Unix epoch.
    pub timestamp: i64,
    /// The latest price in cents.
    pub price: i64,
    /// The change from the earliest to the latest price as a share of the
    /// earliest, in basis points.
    pub pct_change: i128,
    /// The lowest price of the period in cents.
    pub period_min: i64,
    /// The highest price of the period in cents.
    pub period_max: i64,
    /// The latest moving average in cents; 0 where the series is shorter
    /// than the window.
    pub last_sma: i64,
}

/// What a `PerformanceIndicators` value holds.
pub ghost struct Indicators {
    pub symbol: Seq<char>,
    pub timestamp: int,
    pub price: int,
    pub pct_change: int,
    pub period_min: int,
    pub period_max: int,
    pub last_sma: int,
}

impl View for PerformanceIndicators {
    type V = Indicators;

    open spec fn view(&self) -> Indicators {
        Indicators {
            symbol: self.symbol@,
            timestamp: self.timestamp as int,
            price: self.price as int,
            pct_change: self.pct_change as int,
            period_min: self.period_min as int,
            period_max: self.period_max as int,
            last_sma: self.last_sma as int,
        }
    }
}

impl Clone for PerformanceIndicators {
    fn clone(&self) -> (copy: Self)
        ensures
            copy == *self,
    {
        PerformanceIndicators {
            symbol: self.symbol.clone(),
            timestamp: self.timestamp,
            price: self.price,
            pct_change: self.pct_change,
            period_min: self.period_min,
            period_max: self.period_max,
            last_sma: self.last_sma,
        }
    }
}

/// The request for the most recent indicators that the buffer holds, `n` at
/// most.
#[derive(Clone, Copy, Debug, PartialEq, Eq)]
pub struct BufferDataRequest {
    pub n: usize,
}

} // verus!

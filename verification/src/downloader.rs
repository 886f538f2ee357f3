//! The stage that turns the outcome of a fetch into a series.

use vstd::prelude::*;
use vstd::string::StringExecFns;
use crate::messages::{PricePoint, QuoteRequest, Quotes};

verus! {

/// The outcome of fetching the prices of one symbol.
#[derive(Clone, Debug, PartialEq, Eq)]
pub enum Fetched {
    /// The source answered with these points.
    Points(Vec<PricePoint>),
    /// The source answered, and no points could be read from its answer.
    Unreadable,
    /// The source could not be asked or reported an error, described here.
    Failed(String),
}

/// What the stage hands on for one request.
#[derive(Clone, Debug, PartialEq, Eq)]
pub struct Download {
    /// The series to publish.
    pub data: Quotes,
    /// What to report of a fetch that failed.
    pub diagnostic: Option<String>,
}

/// The points that a fetch has brought; none where it brought no answer that
/// could be read.
pub open spec fn fetched_points(fetched: Fetched) -> Seq<PricePoint> {
    match fetched {
        Fetched::Points(points) => points@,
        _ => Seq::empty(),
    }
}

/// What is reported of a fetch for `symbol` that failed with `error`.
pub open spec fn failure_report(symbol: Seq<char>, error: Seq<char>) -> Seq<char> {
    "Ignoring API error for symbol '"@ + symbol + "': "@ + error
}

/// The stage that fetches the prices of a symbol.
pub struct StockDataDownloader;

impl StockDataDownloader {
    /// The series to publish for the request `msg` once its fetch has ended
    /// as `fetched`: the points that were fetched under the symbol of the
    /// request, and an empty series under that symbol where none could be
    /// had. A fetch that failed is reported and otherwise counts as one that
    /// brought nothing.
    pub fn handle(&mut self, msg: QuoteRequest, fetched: Fetched) -> (download: Download)
        ensures
            download.data.symbol@ == msg.symbol@,
            download.data.quotes@ == fetched_points(fetched),
            match fetched {
                Fetched::Failed(error) => download.diagnostic matches Some(report) && report@
                    == failure_report(msg.symbol@, error@),
                _ => download.diagnostic is None,
            },
    {
        match fetched {
            Fetched::Points(points) => Download {
                data: Quotes { symbol: msg.symbol, quotes: points },
                diagnostic: None,
            },
            Fetched::Unreadable => Download {
                data: Quotes { symbol: msg.symbol, quotes: Vec::new() },
                diagnostic: None,
            },
            Fetched::Failed(error) => {
                let mut report = String::from_str("Ignoring API error for symbol '");
                report.append(msg.symbol.as_str());
                report.append("': ");
                report.append(error.as_str());
                Download {
                    data: Quotes { symbol: msg.symbol, quotes: Vec::new() },
                    diagnostic: Some(report),
                }
            },
        }
    }
}

} // verus!

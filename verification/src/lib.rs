//! Analytics for periodically fetched price series.
//!
//! A series of closing prices is put in time order and reduced to a few
//! indicators: the latest price, the relative change over the period, the
//! period's lowest and highest price and the latest moving average. The
//! indicators are formatted as records of a log and kept, most recent first,
//! in a bounded buffer.
//!
//! Prices are whole numbers of cents. Relative changes are whole basis points
//! (hundredths of a percent). Timestamps are seconds since the Unix epoch.

pub mod buffer_sink;
pub mod downloader;
pub mod file_sink;
pub mod messages;
pub mod processor;
pub mod record;
pub mod scheduler;
pub mod rounding;
pub mod signal;
pub mod time_order;

//! The sink that writes each set of indicators to a log, as far as that is
//! a matter of deciding what to write: opening, writing and flushing the file
//! are the caller's.

use vstd::prelude::*;
use vstd::string::StringExecFns;
use crate::messages::PerformanceIndicators;
use crate::record::{format_record, push_signed_decimal, record_text, rfc3339_text,
    signed_decimal, HEADER};

verus! {

/// The name of the log that is begun `started_at` seconds after the Unix
/// epoch.
pub open spec fn log_name(started_at: int) -> Seq<char> {
    signed_decimal(started_at) + seq!['.', 'c', 's', 'v']
}

/// The sink for a log of indicators.
#[derive(Debug, Default)]
pub struct FileSink {
    pub filename: String,
    /// Whether the log has been begun and not yet ended.
    pub writing: bool,
}

impl FileSink {
    /// The sink for the log that is named after the time `started_at`; the
    /// log is not begun yet.
    pub fn new(started_at: i64) -> (sink: Self)
        ensures
            sink.filename@ == log_name(started_at as int),
            !sink.writing,
    {
        let mut filename = String::new();
        push_signed_decimal(&mut filename, started_at as i128);
        filename.push('.');
        filename.push('c');
        filename.push('s');
        filename.push('v');
        FileSink { filename, writing: false }
    }

    /// Begins the log: gives the header that is its first line.
    pub fn started(&mut self) -> (header: String)
        ensures
            header@ == HEADER@,
            final(self).writing,
            final(self).filename == old(self).filename,
    {
        self.writing = true;
        String::from_str(HEADER)
    }

    /// The line to write for `msg`. There is none before the log is begun or
    /// after it is ended, nor where the time of `msg` lies beyond the dates
    /// that the calendar can hold.
    pub fn handle(&mut self, msg: PerformanceIndicators) -> (line: Option<String>)
        ensures
            *final(self) == *old(self),
            match rfc3339_text(msg.timestamp as int) {
                Some(stamp) if old(self).writing => line matches Some(text) && text@
                    == record_text(stamp, msg@),
                _ => line is None,
            },
    {
        if self.writing {
            format_record(&msg)
        } else {
            None
        }
    }

    /// Ends the log, and says whether it was begun, so that what was written
    /// has to be flushed.
    pub fn stopped(&mut self) -> (flush: bool)
        ensures
            flush == old(self).writing,
            !final(self).writing,
            final(self).filename == old(self).filename,
    {
        let flush = self.writing;
        self.writing = false;
        flush
    }
}

} // verus!

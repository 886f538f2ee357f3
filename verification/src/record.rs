//! The text of a log record: one line for each set of indicators.

use vstd::prelude::*;
use vstd::string::StringExecFns;
use crate::messages::{Indicators, PerformanceIndicators};
use crate::rounding::{magnitude, magnitude_of};

verus! {

/// The first line of a log: the names of a record's fields.
pub const HEADER: &'static str = "period_start,symbol,price,change_%,min,max,30d_avg";

/// `String::push` of the standard library puts one character at the end of
/// the string and leaves the rest as it is.
pub assume_specification[ String::push ](text: &mut String, c: char)
    ensures
        final(text)@ == old(text)@.push(c),
;

/// The character for a digit from 0 to 9.
pub open spec fn digit_char(d: int) -> char {
    ((48 + d) as u8) as char
}

/// A natural number in decimal digits, without leading zeros.
pub open spec fn decimal(n: nat) -> Seq<char>
    decreases n,
{
    if n < 10 {
        seq![digit_char(n as int)]
    } else {
        decimal(n / 10).push(digit_char((n % 10) as int))
    }
}

/// A whole number in decimal digits, with a minus sign before a negative one.
pub open spec fn signed_decimal(x: int) -> Seq<char> {
    if x < 0 {
        seq!['-'] + decimal((-x) as nat)
    } else {
        decimal(x as nat)
    }
}

/// A number of hundredths as a decimal number with two digits behind the
/// point, with a minus sign before a negative one.
pub open spec fn hundredths(x: int) -> Seq<char> {
    let size = magnitude_of(x);
    let sign = if x < 0 {
        seq!['-']
    } else {
        Seq::<char>::empty()
    };
    sign + decimal((size / 100) as nat) + seq![
        '.',
        digit_char(size % 100 / 10),
        digit_char(size % 10),
    ]
}

/// An amount in cents as money: the currency sign, then the amount with two
/// digits behind the point.
pub open spec fn money(cents: int) -> Seq<char> {
    seq!['$'] + hundredths(cents)
}

/// A share in basis points as a percentage with two digits behind the point.
pub open spec fn percent(basis_points: int) -> Seq<char> {
    hundredths(basis_points).push('%')
}

/// The record of `indicators` whose time is written as `stamp`: the time, the
/// symbol, the price, the change in percent, the lowest and the highest price
/// and the moving average, with commas between them.
pub open spec fn record_text(stamp: Seq<char>, indicators: Indicators) -> Seq<char> {
    stamp + seq![','] + indicators.symbol + seq![','] + money(indicators.price) + seq![',']
        + percent(indicators.pct_change) + seq![','] + money(indicators.period_min) + seq![',']
        + money(indicators.period_max) + seq![','] + money(indicators.last_sma)
}

/// The date and time in UTC that lie `timestamp` seconds after the Unix
/// epoch, written as RFC 3339 has it; nothing for a time beyond the dates
/// that the calendar can hold.
pub uninterp spec fn rfc3339_text(timestamp: int) -> Option<Seq<char>>;

/// `DateTime::from_timestamp` of chrono, which gives no date for a number of
/// seconds out of its range, and `DateTime::to_rfc3339` on the date that it
/// gives. What they return depends on the number of seconds alone; the
/// contract gives that result its name and says nothing of what it holds.
#[verifier::external_body]
fn rfc3339(timestamp: i64) -> (text: Option<String>)
    ensures
        rfc3339_text(timestamp as int) == match text {
            Some(stamp) => Some(stamp@),
            None => None,
        },
{
    match chrono::DateTime::from_timestamp(timestamp, 0) {
        Some(moment) => Some(moment.to_rfc3339()),
        None => None,
    }
}

/// The character for the digit `d`.
fn digit(d: u8) -> (c: char)
    requires
        d < 10,
    ensures
        c == digit_char(d as int),
{
    (48u8 + d) as char
}

/// Writes `n` in decimal digits at the end of `text`.
pub fn push_decimal(text: &mut String, n: u128)
    ensures
        final(text)@ == old(text)@ + decimal(n as nat),
    decreases n,
{
    if n >= 10 {
        push_decimal(text, n / 10);
    }
    text.push(digit((n % 10) as u8));
}

/// Writes `x` in decimal digits at the end of `text`, with a minus sign
/// before a negative number.
pub fn push_signed_decimal(text: &mut String, x: i128)
    ensures
        final(text)@ == old(text)@ + signed_decimal(x as int),
{
    if x < 0 {
        text.push('-');
    }
    push_decimal(text, magnitude(x));
}

/// Writes `x` hundredths at the end of `text`, as a decimal number with two
/// digits behind the point.
pub fn push_hundredths(text: &mut String, x: i128)
    ensures
        final(text)@ == old(text)@ + hundredths(x as int),
{
    let size: u128 = magnitude(x);
    if x < 0 {
        text.push('-');
    }
    push_decimal(text, size / 100);
    text.push('.');
    let rest: u8 = (size % 100) as u8;
    text.push(digit(rest / 10));
    text.push(digit(rest % 10));
    assert(size % 100 % 10 == size % 10) by (nonlinear_arith);
}

/// Writes an amount of `cents` as money at the end of `text`.
pub fn push_money(text: &mut String, cents: i64)
    ensures
        final(text)@ == old(text)@ + money(cents as int),
{
    text.push('$');
    push_hundredths(text, cents as i128);
}

/// Writes a share of `basis_points` as a percentage at the end of `text`.
pub fn push_percent(text: &mut String, basis_points: i128)
    ensures
        final(text)@ == old(text)@ + percent(basis_points as int),
{
    push_hundredths(text, basis_points);
    text.push('%');
}

/// The record of `msg` whose time is written as `stamp`.
pub fn record_line(stamp: &str, msg: &PerformanceIndicators) -> (line: String)
    ensures
        line@ == record_text(stamp@, msg@),
{
    let mut line = String::new();
    line.append(stamp);
    line.push(',');
    line.append(msg.symbol.as_str());
    line.push(',');
    push_money(&mut line, msg.price);
    line.push(',');
    push_percent(&mut line, msg.pct_change);
    line.push(',');
    push_money(&mut line, msg.period_min);
    line.push(',');
    push_money(&mut line, msg.period_max);
    line.push(',');
    push_money(&mut line, msg.last_sma);
    line
}

/// The record of `msg`, its time written as RFC 3339 has it. There is none
/// where the time of `msg` lies beyond the dates that the calendar can hold.
pub fn format_record(msg: &PerformanceIndicators) -> (line: Option<String>)
    ensures
        match rfc3339_text(msg.timestamp as int) {
            Some(stamp) => line matches Some(text) && text@ == record_text(stamp, msg@),
            None => line is None,
        },
{
    match rfc3339(msg.timestamp) {
        Some(stamp) => Some(record_line(stamp.as_str(), msg)),
        None => None,
    }
}

} // verus!

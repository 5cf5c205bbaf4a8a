//! Reading the dates of frontmatter: RFC 3339 timestamps, date-times
//! without an offset, plain dates, and year-month pairs, all in UTC.

use chrono::{Datelike, Timelike};
use vstd::prelude::*;

use crate::metadata::{Date, DateTime};
use crate::text::{chars_of, split, split_chars, string_of, views};
use crate::toc::is_digit;

verus! {

/// The UTC instant of an RFC 3339 timestamp, where the text is one.
pub uninterp spec fn rfc3339_instant(s: Seq<char>) -> Option<DateTime>;

/// The date-time that the text spells in the given `strftime` format,
/// where it spells one.
pub uninterp spec fn formatted_date_time(s: Seq<char>, fmt: Seq<char>) -> Option<DateTime>;

/// The date that the text spells in the given `strftime` format, where it
/// spells one.
pub uninterp spec fn formatted_date(s: Seq<char>, fmt: Seq<char>) -> Option<Date>;

/// Relies on `chrono::DateTime::parse_from_rfc3339`, the result taken to
/// UTC: it depends on the text alone.
#[verifier::external_body]
fn parse_rfc3339(s: &str) -> (r: Option<DateTime>)
    ensures
        r == rfc3339_instant(s@),
{
    match chrono::DateTime::parse_from_rfc3339(s) {
        Ok(t) => {
            let u = t.naive_utc();
            let date = Date { year: u.year(), month: u.month(), day: u.day() };
            Some(DateTime { date, hour: u.hour(), minute: u.minute(), second: u.second(), nanosecond: u.nanosecond() })
        },
        Err(_) => None,
    }
}

/// Relies on `chrono::NaiveDateTime::parse_from_str`: the result depends on
/// the text and the format alone.
#[verifier::external_body]
fn parse_naive_date_time(s: &str, fmt: &str) -> (r: Option<DateTime>)
    ensures
        r == formatted_date_time(s@, fmt@),
{
    match chrono::NaiveDateTime::parse_from_str(s, fmt) {
        Ok(u) => {
            let date = Date { year: u.year(), month: u.month(), day: u.day() };
            Some(DateTime { date, hour: u.hour(), minute: u.minute(), second: u.second(), nanosecond: u.nanosecond() })
        },
        Err(_) => None,
    }
}

/// Relies on `chrono::NaiveDate::parse_from_str`: the result depends on the
/// text and the format alone.
#[verifier::external_body]
fn parse_naive_date(s: &str, fmt: &str) -> (r: Option<Date>)
    ensures
        r == formatted_date(s@, fmt@),
{
    match chrono::NaiveDate::parse_from_str(s, fmt) {
        Ok(d) => Some(Date { year: d.year(), month: d.month(), day: d.day() }),
        Err(_) => None,
    }
}

/// Relies on `chrono::NaiveDate::from_ymd_opt` for the first day of a
/// month: a date for months one to twelve of the years chrono represents.
#[verifier::external_body]
fn first_of_month(year: i32, month: u32) -> (r: Option<Date>)
    ensures
        (1 <= month <= 12 && -262143 <= year <= 262142) <==> r is Some,
        r matches Some(d) ==> d == (Date { year, month, day: 1 }),
{
    match chrono::NaiveDate::from_ymd_opt(year, month, 1) {
        Some(d) => Some(Date { year: d.year(), month: d.month(), day: d.day() }),
        None => None,
    }
}

/// The value of a run of decimal digits.
pub open spec fn digits_value(s: Seq<char>) -> int
    decreases s.len(),
{
    if s.len() == 0 {
        0
    } else {
        digits_value(s.drop_last()) * 10 + (s.last() as int - '0' as int)
    }
}

pub open spec fn all_digits(s: Seq<char>) -> bool {
    forall|i: int| 0 <= i < s.len() ==> is_digit(#[trigger] s[i])
}

/// The integer a text spells: an optional sign, then one or more digits.
pub open spec fn signed_value(s: Seq<char>, signed: bool) -> Option<int> {
    if s.len() > 1 && s[0] == '+' && all_digits(s.drop_first()) {
        Some(digits_value(s.drop_first()))
    } else if signed && s.len() > 1 && s[0] == '-' && all_digits(s.drop_first()) {
        Some(-digits_value(s.drop_first()))
    } else if s.len() > 0 && all_digits(s) {
        Some(digits_value(s))
    } else {
        None
    }
}

/// Relies on `str::parse::<i32>`: an optional sign and decimal digits whose
/// value fits.
#[verifier::external_body]
fn parse_i32(s: &str) -> (r: Option<i32>)
    ensures
        (signed_value(s@, true) matches Some(v) && i32::MIN <= v <= i32::MAX) <==> r is Some,
        r matches Some(x) ==> signed_value(s@, true) == Some(x as int),
{
    s.parse::<i32>().ok()
}

/// Relies on `str::parse::<u32>`: an optional plus sign and decimal digits
/// whose value fits.
#[verifier::external_body]
fn parse_u32(s: &str) -> (r: Option<u32>)
    ensures
        (signed_value(s@, false) matches Some(v) && 0 <= v <= u32::MAX) <==> r is Some,
        r matches Some(x) ==> signed_value(s@, false) == Some(x as int),
{
    s.parse::<u32>().ok()
}

/// Midnight of a date.
pub open spec fn midnight(d: Date) -> DateTime {
    DateTime { date: d, hour: 0, minute: 0, second: 0, nanosecond: 0 }
}

/// The first day of the month that `YYYY-MM` names, where the first two
/// dash-separated pieces are a year and a valid month.
pub open spec fn year_month(s: Seq<char>) -> Option<Date> {
    let p = split(s, '-');
    if p.len() >= 2 {
        match (signed_value(p[0], true), signed_value(p[1], false)) {
            (Some(y), Some(m)) => if i32::MIN <= y <= i32::MAX && 0 <= m <= u32::MAX && 1 <= m <= 12
                && -262143 <= y <= 262142 {
                Some(Date { year: y as i32, month: m as u32, day: 1 })
            } else {
                None
            },
            _ => None,
        }
    } else {
        None
    }
}

pub open spec fn format_date_time() -> Seq<char> {
    seq!['%', 'Y', '-', '%', 'm', '-', '%', 'd', 'T', '%', 'H', ':', '%', 'M', ':', '%', 'S']
}

pub open spec fn format_date() -> Seq<char> {
    seq!['%', 'Y', '-', '%', 'm', '-', '%', 'd']
}

/// A frontmatter date-time: an RFC 3339 timestamp; else a date-time
/// without offset; else a date, at midnight; else a year and month, at
/// midnight of its first day.
pub open spec fn flexible_date_time(s: Seq<char>) -> Option<DateTime> {
    match rfc3339_instant(s) {
        Some(t) => Some(t),
        None => match formatted_date_time(s, format_date_time()) {
            Some(t) => Some(t),
            None => match formatted_date(s, format_date()) {
                Some(d) => Some(midnight(d)),
                None => match year_month(s) {
                    Some(d) => Some(midnight(d)),
                    None => None,
                },
            },
        },
    }
}

/// The first day of the month that `YYYY-MM` names.
pub fn parse_yyyy_mm(s: &str) -> (r: Option<Date>)
    ensures
        r == year_month(s@),
{
    let chars = chars_of(s);
    let pieces = split_chars(&chars, '-');
    if pieces.len() < 2 {
        return None;
    }
    let year = parse_i32(string_of(&pieces[0]).as_str());
    let month = parse_u32(string_of(&pieces[1]).as_str());
    assert(views(pieces@)[0] == pieces@[0]@);
    assert(views(pieces@)[1] == pieces@[1]@);
    match (year, month) {
        (Some(y), Some(m)) => first_of_month(y, m),
        _ => None,
    }
}

/// Reads a frontmatter date-time, in UTC.
pub fn parse_date_time(s: &str) -> (r: Option<DateTime>)
    ensures
        r == flexible_date_time(s@),
{
    let t = parse_rfc3339(s);
    if t.is_some() {
        return t;
    }
    let fmt: &str = "%Y-%m-%dT%H:%M:%S";
    proof {
        reveal_strlit("%Y-%m-%dT%H:%M:%S");
        assert(fmt@ =~= format_date_time());
    }
    let t = parse_naive_date_time(s, fmt);
    if t.is_some() {
        return t;
    }
    let dfmt: &str = "%Y-%m-%d";
    proof {
        reveal_strlit("%Y-%m-%d");
        assert(dfmt@ =~= format_date());
    }
    match parse_naive_date(s, dfmt) {
        Some(d) => {
            return Some(DateTime { date: d, hour: 0, minute: 0, second: 0, nanosecond: 0 });
        },
        None => {},
    }
    match parse_yyyy_mm(s) {
        Some(d) => Some(DateTime { date: d, hour: 0, minute: 0, second: 0, nanosecond: 0 }),
        None => None,
    }
}

/// Reads a frontmatter date: the date of what `parse_date_time` reads.
pub fn parse_date(s: &str) -> (r: Option<Date>)
    ensures
        r == match flexible_date_time(s@) {
            Some(t) => Some(t.date),
            None => None,
        },
{
    match parse_date_time(s) {
        Some(t) => Some(t.date),
        None => None,
    }
}

} // verus!

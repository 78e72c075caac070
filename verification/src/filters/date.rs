//! The predicate on a file's modification date. Dates are parsed by the
//! `chrono` crate.

use vstd::prelude::*;
use crate::entry::{EntryKind, EntryView, FileEntry};
use crate::filters::{Filter, FilterError, FilterResult};

verus! {

/// `chrono::ParseError`, the reason why a text was not read as a date.
#[verifier::external_type_specification]
#[verifier::external_body]
pub struct ExParseError(chrono::ParseError);

/// The day number of the date that `chrono::NaiveDate::parse_from_str` reads
/// from `text` under `format`, counted in the proleptic Gregorian calendar
/// with 1 January of year 1 as day 1; `None` where it rejects the text.
pub uninterp spec fn parsed_day_number(text: Seq<char>, format: Seq<char>) -> Option<int>;

/// `chrono::NaiveDate::parse_from_str`, with the date handed back as its
/// `num_days_from_ce`.
#[verifier::external_body]
fn parse_day_number(text: &str, format: &str) -> (r: Result<i32, chrono::ParseError>)
    ensures
        r matches Ok(day) ==> parsed_day_number(text@, format@) == Some(day as int),
        r is Err ==> parsed_day_number(text@, format@) is None,
{
    let date = chrono::NaiveDate::parse_from_str(text, format)?;
    Ok(chrono::Datelike::num_days_from_ce(&date))
}

/// `chrono::ParseError`'s `Display` text.
#[verifier::external_body]
fn parse_error_text(error: &chrono::ParseError) -> (text: String) {
    error.to_string()
}

/// The day number of 1 January 1970.
pub const EPOCH_DAY: i64 = 719_163;

/// The length of a day in seconds.
pub const SECONDS_PER_DAY: i64 = 86_400;

/// The day number that a date of the form `YYYY-MM-DD` stands for.
pub open spec fn iso_day(text: Seq<char>) -> Option<int> {
    parsed_day_number(text, "%Y-%m-%d"@)
}

/// Seconds since the epoch at 00:00:00 UTC of the day numbered `day`.
pub open spec fn day_start(day: int) -> int {
    (day - EPOCH_DAY) * SECONDS_PER_DAY
}

/// Seconds since the epoch at 23:59:59 UTC of the day numbered `day`.
pub open spec fn day_end(day: int) -> int {
    day_start(day) + SECONDS_PER_DAY - 1
}

/// Seconds since the epoch at the first second of the day numbered `day`.
pub fn start_of_day(day: i32) -> (seconds: i64)
    ensures
        seconds == day_start(day as int),
{
    let d: i64 = day as i64;
    (d - EPOCH_DAY) * SECONDS_PER_DAY
}

/// Seconds since the epoch at the last second of the day numbered `day`.
pub fn end_of_day(day: i32) -> (seconds: i64)
    ensures
        seconds == day_end(day as int),
{
    start_of_day(day) + (SECONDS_PER_DAY - 1)
}

/// Reads a date of the form `YYYY-MM-DD` and gives its day number.
pub fn parse_iso_day(text: &str) -> (r: Result<i32, FilterError>)
    ensures
        r matches Ok(day) ==> iso_day(text@) == Some(day as int),
        r is Err ==> iso_day(text@) is None,
        r matches Err(e) ==> e is InvalidDate,
{
    match parse_day_number(text, "%Y-%m-%d") {
        Ok(day) => Ok(day),
        Err(e) => Err(FilterError::InvalidDate(parse_error_text(&e))),
    }
}

/// Accepts the files modified within bounds, given in seconds since the
/// epoch; either bound may be absent.
#[derive(Debug, Clone, Copy)]
pub struct DateFilter {
    newer_than: Option<i64>,
    older_than: Option<i64>,
}

/// What a date predicate says of `entry`: directories pass; a file whose
/// modification time could not be read is rejected, and so is one modified
/// before `newer` or after `older`.
pub open spec fn date_decision(newer: Option<i64>, older: Option<i64>, entry: EntryView) -> FilterResult {
    if entry.is_dir() {
        FilterResult::Accept
    } else {
        match entry.modified {
            None => FilterResult::Reject,
            Some(at) => if (newer matches Some(lo) && at < lo) || (older matches Some(hi) && at > hi) {
                FilterResult::Reject
            } else {
                FilterResult::Accept
            },
        }
    }
}

impl DateFilter {
/// The earliest modification time that passes, where there is a bound.
    pub closed spec fn newer(&self) -> Option<i64> {
        self.newer_than
    }

/// The latest modification time that passes, where there is a bound.
    pub closed spec fn older(&self) -> Option<i64> {
        self.older_than
    }

    /// The predicate with the given bounds.
    pub closed spec fn of(newer_than: Option<i64>, older_than: Option<i64>) -> DateFilter {
        DateFilter { newer_than, older_than }
    }

    /// A predicate with the given bounds in seconds since the epoch.
    pub fn new(newer_than: Option<i64>, older_than: Option<i64>) -> (f: DateFilter)
        ensures
            f == DateFilter::of(newer_than, older_than),
            f.newer() == newer_than,
            f.older() == older_than,
    {
        DateFilter { newer_than, older_than }
    }

    /// Whether a bound is set.
    pub fn has_bound(&self) -> (r: bool)
        ensures
            r == (self.newer() is Some || self.older() is Some),
    {
        self.newer_than.is_some() || self.older_than.is_some()
    }

    /// A predicate for files modified on the day `date` (`YYYY-MM-DD`) or
    /// later. Fails on a text that is no such date.
    pub fn newer_than(date: &str) -> (r: Result<DateFilter, FilterError>)
        ensures
            match iso_day(date@) {
                Some(day) => r is Ok && r->Ok_0.newer() == Some(day_start(day) as i64)
                    && r->Ok_0.older() is None,
                None => r is Err && r->Err_0 is InvalidDate,
            },
    {
        match parse_iso_day(date) {
            Ok(day) => Ok(DateFilter { newer_than: Some(start_of_day(day)), older_than: None }),
            Err(e) => Err(e),
        }
    }

    /// A predicate for files modified on the day `date` (`YYYY-MM-DD`) or
    /// earlier. Fails on a text that is no such date.
    pub fn older_than(date: &str) -> (r: Result<DateFilter, FilterError>)
        ensures
            match iso_day(date@) {
                Some(day) => r is Ok && r->Ok_0.newer() is None && r->Ok_0.older() == Some(
                    day_end(day) as i64,
                ),
                None => r is Err && r->Err_0 is InvalidDate,
            },
    {
        match parse_iso_day(date) {
            Ok(day) => Ok(DateFilter { newer_than: None, older_than: Some(end_of_day(day)) }),
            Err(e) => Err(e),
        }
    }

    /// A predicate for files modified from the day `newer_than` to the day
    /// `older_than`, both included. Fails where either text is no date.
    pub fn date_range(newer_than: &str, older_than: &str) -> (r: Result<DateFilter, FilterError>)
        ensures
            match (iso_day(newer_than@), iso_day(older_than@)) {
                (Some(first), Some(last)) => r is Ok && r->Ok_0.newer() == Some(
                    day_start(first) as i64,
                ) && r->Ok_0.older() == Some(day_end(last) as i64),
                _ => r is Err && r->Err_0 is InvalidDate,
            },
    {
        let first = match parse_iso_day(newer_than) {
            Ok(day) => day,
            Err(e) => {
                return Err(e);
            },
        };
        match parse_iso_day(older_than) {
            Ok(last) => Ok(
                DateFilter {
                    newer_than: Some(start_of_day(first)),
                    older_than: Some(end_of_day(last)),
                },
            ),
            Err(e) => Err(e),
        }
    }
}

impl Filter for DateFilter {
    open spec fn spec_filter(&self, entry: EntryView) -> FilterResult {
        date_decision(self.newer(), self.older(), entry)
    }

    fn filter(&self, entry: &FileEntry) -> (r: FilterResult) {
        if entry.kind == EntryKind::Directory {
            return FilterResult::Accept;
        }
        let at = match entry.modified {
            Some(at) => at,
            None => {
                return FilterResult::Reject;
            },
        };
        if let Some(lo) = self.newer_than {
            if at < lo {
                return FilterResult::Reject;
            }
        }
        if let Some(hi) = self.older_than {
            if at > hi {
                return FilterResult::Reject;
            }
        }
        FilterResult::Accept
    }
}

} // verus!

//! Dates given by the user, in the local time zone.
//!
//! Timestamps are milliseconds since the Unix epoch. Turning a calendar
//! date into a timestamp depends on the machine's time zone, so those
//! conversions are calls into chrono; what is known of their results is that
//! a local time lies within a day of the same date and time read as UTC.

use vstd::prelude::*;

use crate::entry::DAY_MS;
use crate::text::{append_string, same_text};

verus! {

/// Why a date given by the user could not be understood.
#[derive(Clone, Copy, Debug, PartialEq, Eq)]
pub enum DateError {
    /// Not a `YYYY-MM-DD` date (or a date that does not exist in the local time zone)
    Invalid,
}

/// The current time.
///
/// Trusted: calls `chrono::Local::now` and converts it with
/// `timestamp_millis`. Nothing is claimed of the result.
#[verifier::external_body]
fn now_millis() -> (r: i64) {
    chrono::Local::now().timestamp_millis()
}

/// The milliseconds since the Unix epoch of a date and time in `%FT%TZ`
/// format read as UTC, as chrono's `NaiveDateTime::parse_from_str` parses it
/// (`None` if it is not one).
pub uninterp spec fn naive_datetime_millis(s: Seq<char>) -> Option<i64>;

/// The milliseconds since the Unix epoch of the midnight of a date in
/// `%Y-%m-%d` format read as UTC, as chrono's `NaiveDate::parse_from_str`
/// parses it (`None` if it is not one).
pub uninterp spec fn naive_date_millis(s: Seq<char>) -> Option<i64>;

/// Parses a date and time in `%FT%TZ` format, without a time zone.
///
/// Trusted: calls `chrono::NaiveDateTime::parse_from_str` with the format
/// `%FT%TZ` and converts a parsed value with `and_utc().timestamp_millis()`.
/// The parse depends on the text alone; the contract names its result.
#[verifier::external_body]
fn naive_datetime(s: &str) -> (r: Option<i64>)
    ensures
        r == naive_datetime_millis(s@),
{
    match chrono::NaiveDateTime::parse_from_str(s, "%FT%TZ") {
        Ok(t) => Some(t.and_utc().timestamp_millis()),
        Err(_) => None,
    }
}

/// Parses a date in `%Y-%m-%d` format and takes its midnight, without a
/// time zone.
///
/// Trusted: calls `chrono::NaiveDate::parse_from_str` with the format
/// `%Y-%m-%d`, takes midnight with `and_hms_opt(0, 0, 0)` and converts it
/// with `and_utc().timestamp_millis()`. The parse depends on the text alone;
/// the contract names its result.
#[verifier::external_body]
fn naive_date(s: &str) -> (r: Option<i64>)
    ensures
        r == naive_date_millis(s@),
{
    match chrono::NaiveDate::parse_from_str(s, "%Y-%m-%d") {
        Ok(day) => match day.and_hms_opt(0, 0, 0) {
            Some(midnight) => Some(midnight.and_utc().timestamp_millis()),
            None => None,
        },
        Err(_) => None,
    }
}

/// Reads the date and time `n` (milliseconds since the epoch, without a
/// time zone) as a local time, and gives the instant it names.
///
/// Trusted: calls `chrono::TimeZone::from_local_datetime` on `Local` with
/// the naive date and time of `n` (from `DateTime::from_timestamp_millis`
/// and `naive_utc`), converting a single result with `timestamp_millis`
/// (`None` for a local time that does not exist, or exists twice). The
/// instant depends on the machine's time zone, so it gets no name; the
/// contract claims what chrono's source shows of every outcome: the instant
/// is the local time minus the zone's offset, a `FixedOffset`, which
/// `FixedOffset::east_opt` keeps strictly within a day.
#[verifier::external_body]
fn local_from_naive(n: i64) -> (r: Option<i64>)
    ensures
        r matches Some(t) ==> n - DAY_MS < t < n + DAY_MS,
{
    match chrono::DateTime::from_timestamp_millis(n) {
        Some(naive) => match chrono::TimeZone::from_local_datetime(&chrono::Local, &naive.naive_utc()) {
            chrono::MappedLocalTime::Single(t) => Some(t.timestamp_millis()),
            _ => None,
        },
        None => None,
    }
}

/// The text handed to the date parser for a `YYYY-MM-DD` input: the date at midnight.
pub fn date_input(usr_input: &str) -> (r: String)
    ensures
        r@ == usr_input@ + "T00:00:00Z"@,
{
    let mut r = usr_input.to_owned();
    let tail = "T00:00:00Z".to_owned();
    append_string(&mut r, &tail);
    r
}

/// Converts a `YYYY-MM-DD` input into the timestamp of that day's local
/// midnight, when the current time is `now`. `now` and `end` give the
/// current time, `start` the start of the Unix epoch.
///
/// A local time is the same date and time read as UTC, shifted by the
/// time zone's offset, which is less than a day.
pub fn parse_date_at(usr_input: &str, now: i64) -> (r: Result<i64, DateError>)
    ensures
        usr_input@ == "now"@ || usr_input@ == "end"@ ==> r == Ok::<i64, DateError>(now),
        usr_input@ == "start"@ ==> r == Ok::<i64, DateError>(0),
        !(usr_input@ == "now"@ || usr_input@ == "end"@ || usr_input@ == "start"@) ==> {
            &&& naive_datetime_millis(usr_input@ + "T00:00:00Z"@) is None ==> r is Err
            &&& r matches Ok(t) ==> (naive_datetime_millis(usr_input@ + "T00:00:00Z"@) matches Some(n)
                && n - DAY_MS < t < n + DAY_MS)
        },
{
    proof {
        reveal_strlit("now");
        reveal_strlit("end");
        reveal_strlit("start");
    }
    if same_text(usr_input, "now") || same_text(usr_input, "end") {
        return Ok(now);
    }
    if same_text(usr_input, "start") {
        return Ok(0);
    }
    let text = date_input(usr_input);
    match naive_datetime(text.as_str()) {
        None => Err(DateError::Invalid),
        Some(n) => match local_from_naive(n) {
            Some(t) => Ok(t),
            None => Err(DateError::Invalid),
        },
    }
}

/// Converts a `YYYY-MM-DD` input into the timestamp of that day's local
/// midnight. `now` and `end` give the current time, `start` the start of
/// the Unix epoch: see [`parse_date_at`], with the time that the clock reads.
pub fn parse_date(usr_input: &str) -> (r: Result<i64, DateError>)
    ensures
        usr_input@ == "now"@ || usr_input@ == "end"@ ==> r is Ok,
        usr_input@ == "start"@ ==> r == Ok::<i64, DateError>(0),
        !(usr_input@ == "now"@ || usr_input@ == "end"@ || usr_input@ == "start"@) ==> {
            &&& naive_datetime_millis(usr_input@ + "T00:00:00Z"@) is None ==> r is Err
            &&& r matches Ok(t) ==> (naive_datetime_millis(usr_input@ + "T00:00:00Z"@) matches Some(n)
                && n - DAY_MS < t < n + DAY_MS)
        },
{
    parse_date_at(usr_input, now_millis())
}

/// The period of the listening history to show, given the timestamps of the
/// first and last entries: from `start` (but not before the first entry) to
/// `end` (but not after the last entry), or the day from `start` when no end
/// is given. `None` when the start is missing or invalid, or the end invalid.
pub open spec fn history_period_of(first: int, last: int, start: Option<i64>, end: Option<Option<i64>>) -> Option<(int, int)> {
    match start {
        None => None,
        Some(s) => {
            let s = if s < first { first } else { s as int };
            match end {
                None => Some((s, s + 86_400_000)),
                Some(None) => None,
                Some(Some(e)) => Some((s, if e > last { last } else { e as int })),
            }
        },
    }
}

/// The period of the listening history starts at the given start, or at
/// the first entry if that is later, and ends at the given end, or at the
/// last entry if the end is after it; with no end given it lasts a day. It
/// exists exactly when a start is given and a given end is valid.
pub proof fn lemma_history_period(first: int, last: int, start: Option<i64>, end: Option<Option<i64>>)
    ensures
        history_period_of(first, last, start, end) is Some <==> (start is Some && end != Some(None::<i64>)),
        history_period_of(first, last, start, end) matches Some(p) ==> {
            &&& start matches Some(s) && (s >= first ==> p.0 == s) && (s < first ==> p.0 == first)
            &&& end is None ==> p.1 == p.0 + DAY_MS
            &&& end matches Some(Some(e)) ==> (e <= last ==> p.1 == e) && (e > last ==> p.1 == last)
        },
{
}

/// Clamps the period of the listening history to the dataset: see
/// [`history_period_of`].
pub fn history_period(first: i64, last: i64, start: Option<i64>, end: Option<Option<i64>>) -> (r: Option<(i64, i64)>)
    requires
        first <= last,
        last <= i64::MAX - DAY_MS,
        start matches Some(s) ==> s <= i64::MAX - DAY_MS,
    ensures
        r matches Some(p) ==> history_period_of(first as int, last as int, start, end) == Some((p.0 as int, p.1 as int)),
        r is None <==> history_period_of(first as int, last as int, start, end) is None,
{
    let s = match start {
        None => return None,
        Some(s) => if s < first { first } else { s },
    };
    match end {
        None => Some((s, s + DAY_MS)),
        Some(None) => None,
        Some(Some(e)) => Some((s, if e > last { last } else { e })),
    }
}

/// The period of the listening history for dates given as `YYYY-MM-DD`
/// (the end is optional), within the dataset whose first and last entries
/// have the given timestamps: see [`history_period`], with each date's local
/// midnight. `None` when the start is missing, or a date is not one.
pub fn history_dates(first: i64, last: i64, start: Option<&str>, end: Option<&str>) -> (r: Option<(i64, i64)>)
    requires
        first <= last,
        last <= i64::MAX - DAY_MS,
    ensures
        start is None ==> r is None,
        start matches Some(t) && naive_date_millis(t@) is None ==> r is None,
        end matches Some(t) && naive_date_millis(t@) is None ==> r is None,
        r matches Some(p) ==> exists|s: i64, e: i64| #[trigger] local_period(first, last, start, end, s, e, p),
{
    let s = match start {
        None => return None,
        Some(text) => match naive_date(text) {
            None => return None,
            Some(n) => match local_from_naive(n) {
                None => return None,
                Some(t) => t,
            },
        },
    };
    if s > i64::MAX - DAY_MS {
        return None;
    }
    let mut e: i64 = 0;
    let end_time = match end {
        None => None,
        Some(text) => match naive_date(text) {
            None => return None,
            Some(n) => {
                let local = local_from_naive(n);
                if let Some(t) = local {
                    e = t;
                }
                Some(local)
            },
        },
    };
    let r = history_period(first, last, Some(s), end_time);
    proof {
        if r is Some {
            assert(local_period(first, last, start, end, s, e, r.unwrap()));
        }
    }
    r
}

/// `p` is the period of the listening history when `start` (and `end`, if
/// given) are read as the local midnights `s` (and `e`): each date's
/// midnight as UTC shifted by less than a day.
pub open spec fn local_period(first: i64, last: i64, start: Option<&str>, end: Option<&str>, s: i64, e: i64, p: (i64, i64)) -> bool {
    &&& start matches Some(t) && naive_date_millis(t@) matches Some(ns) && ns - DAY_MS < s < ns + DAY_MS
    &&& s <= i64::MAX - DAY_MS
    &&& match end {
        None => history_period_of(first as int, last as int, Some(s), None) == Some((p.0 as int, p.1 as int)),
        Some(t) => naive_date_millis(t@) matches Some(ne) && ne - DAY_MS < e < ne + DAY_MS
            && history_period_of(first as int, last as int, Some(s), Some(Some(e))) == Some((p.0 as int, p.1 as int)),
    }
}

} // verus!

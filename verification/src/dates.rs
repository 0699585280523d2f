//! Calendar dates and timestamps, as `chrono` reads them.
use vstd::prelude::*;

verus! {

/// What `chrono::NaiveDate::parse_from_str(s, "%Y-%m-%d")` reads from `s`: the
/// milliseconds since the Unix epoch of that date's midnight in UTC, or `None`
/// when `s` is not such a date.
pub uninterp spec fn spec_ymd_midnight_ms(s: Seq<char>) -> Option<i64>;

/// What `chrono::DateTime::parse_from_rfc3339(s)` reads from `s`: the
/// milliseconds since the Unix epoch of that instant, or `None` when `s` is not
/// an RFC 3339 date-time.
pub uninterp spec fn spec_rfc3339_ms(s: Seq<char>) -> Option<i64>;

/// Trusted: `chrono::NaiveDate::parse_from_str` with the format `%Y-%m-%d`; the
/// date it gives is turned into the timestamp of its midnight in UTC
/// (`and_hms_opt(0, 0, 0)`, `and_utc`, `timestamp_millis`). The result is named
/// `spec_ymd_midnight_ms`.
#[verifier::external_body]
pub(crate) fn ymd_midnight_ms(s: &str) -> (r: Option<i64>)
    ensures
        r == spec_ymd_midnight_ms(s@),
{
    match chrono::NaiveDate::parse_from_str(s, "%Y-%m-%d") {
        Ok(date) => match date.and_hms_opt(0, 0, 0) {
            Some(dt) => Some(dt.and_utc().timestamp_millis()),
            None => None,
        },
        Err(_) => None,
    }
}

/// Trusted: `chrono::DateTime::parse_from_rfc3339`; the instant it gives is turned
/// into milliseconds since the epoch (`timestamp_millis`). The result is named
/// `spec_rfc3339_ms`.
#[verifier::external_body]
pub(crate) fn rfc3339_ms(s: &str) -> (r: Option<i64>)
    ensures
        r == spec_rfc3339_ms(s@),
{
    match chrono::DateTime::parse_from_rfc3339(s) {
        Ok(dt) => Some(dt.timestamp_millis()),
        Err(_) => None,
    }
}

/// A date as the query language and documents accept it: `YYYY-MM-DD` (midnight
/// UTC) first, then an RFC 3339 date-time.
pub open spec fn date_ms(s: Seq<char>) -> Option<i64> {
    match spec_ymd_midnight_ms(s) {
        Some(ms) => Some(ms),
        None => spec_rfc3339_ms(s),
    }
}

/// Milliseconds since the epoch of a date or date-time string.
pub fn parse_date_ms(s: &str) -> (r: Option<i64>)
    ensures
        r == date_ms(s@),
{
    match ymd_midnight_ms(s) {
        Some(ms) => Some(ms),
        None => rfc3339_ms(s),
    }
}

} // verus!

//! Comparing timestamps (whole seconds since the Unix epoch).
use vstd::prelude::*;
use std::cmp::Ordering;

verus! {

/// The instant that the RFC 3339 timestamp `s` names, in whole seconds
/// since the Unix epoch; none when `s` is not such a timestamp.
pub uninterp spec fn rfc3339_seconds(s: Seq<char>) -> Option<int>;

/// Relies on chrono's `DateTime::parse_from_rfc3339` and
/// `DateTime::timestamp`: the parsed instant in whole seconds since the
/// Unix epoch, or an error for text that is not an RFC 3339 timestamp.
#[verifier::external_body]
pub(crate) fn parse_rfc3339(s: &str) -> (r: Option<i64>)
    ensures
        match r {
            Some(t) => rfc3339_seconds(s@) == Some(t as int),
            None => rfc3339_seconds(s@) is None,
        },
{
    chrono::DateTime::parse_from_rfc3339(s).ok().map(|d| d.timestamp())
}

/// A job's timestamp: the epoch itself when the record gives none, the
/// instant it names when it is an RFC 3339 timestamp, and nothing (the
/// record is malformed) otherwise.
pub fn job_timestamp(text: &Option<String>) -> (r: Option<i64>)
    ensures
        match text {
            None => r == Some(0i64),
            Some(t) => match r {
                Some(x) => rfc3339_seconds(t@) == Some(x as int),
                None => rfc3339_seconds(t@) is None,
            },
        },
{
    match text {
        None => Some(0),
        Some(t) => parse_rfc3339(t.as_str()),
    }
}

/// Seconds from `created_at` to `now`.
pub fn seconds_ago(created_at: i64, now: i64) -> (r: i128)
    ensures
        r == now as int - created_at as int,
{
    now as i128 - created_at as i128
}

/// Orders two timestamps, treating them as equal when they lie at most
/// `tolerance` seconds apart.
pub fn compare_dates_with_tolerance(a: i64, b: i64, tolerance: i64) -> (r: Ordering)
    ensures
        (if a as int - b as int >= 0 { a as int - b as int } else { b as int - a as int })
            <= tolerance as int ==> r == Ordering::Equal,
        (if a as int - b as int >= 0 { a as int - b as int } else { b as int - a as int })
            > tolerance as int ==> r == if a < b {
            Ordering::Less
        } else if a > b {
            Ordering::Greater
        } else {
            Ordering::Equal
        },
{
    let d = a as i128 - b as i128;
    let difference = if d >= 0 { d } else { -d };
    if difference <= tolerance as i128 {
        Ordering::Equal
    } else if a < b {
        Ordering::Less
    } else if a > b {
        Ordering::Greater
    } else {
        Ordering::Equal
    }
}

} // verus!

//! Timestamps. An instant is a pair of seconds since the epoch and
//! nanoseconds within the second; instants order timestamp strings the way
//! the calendar does, which their lexicographic form need not.

use vstd::prelude::*;

verus! {

/// The instant an RFC 3339 date-and-time string with a numeric offset or
/// `Z` denotes, or nothing when the string is not one.
pub uninterp spec fn rfc3339_instant(s: Seq<char>) -> Option<(i64, u32)>;

/// The instant a relaxed RFC 3339 string denotes when read as UTC, or
/// nothing when the string is not one.
pub uninterp spec fn utc_instant(s: Seq<char>) -> Option<(i64, u32)>;

/// Relies on `chrono::DateTime::parse_from_rfc3339`, with `timestamp` and
/// `timestamp_subsec_nanos` reading the result out as plain values: the
/// outcome depends on the characters of `s` alone.
#[verifier::external_body]
pub(crate) fn parse_rfc3339(s: &str) -> (r: Option<(i64, u32)>)
    ensures
        r == rfc3339_instant(s@),
{
    match chrono::DateTime::parse_from_rfc3339(s) {
        Ok(dt) => Some((dt.timestamp(), dt.timestamp_subsec_nanos())),
        Err(_) => None,
    }
}

/// Relies on `str::parse::<chrono::DateTime<chrono::Utc>>`, with `timestamp`
/// and `timestamp_subsec_nanos` reading the result out as plain values: the
/// outcome depends on the characters of `s` alone.
#[verifier::external_body]
pub(crate) fn parse_utc_datetime(s: &str) -> (r: Option<(i64, u32)>)
    ensures
        r == utc_instant(s@),
{
    match s.parse::<chrono::DateTime<chrono::Utc>>() {
        Ok(dt) => Some((dt.timestamp(), dt.timestamp_subsec_nanos())),
        Err(_) => None,
    }
}

/// Whether instant `a` is at or before instant `b`.
pub open spec fn instant_le(a: (i64, u32), b: (i64, u32)) -> bool {
    a.0 < b.0 || (a.0 == b.0 && a.1 <= b.1)
}

/// Compares two instants.
pub fn instant_le_exec(a: (i64, u32), b: (i64, u32)) -> (r: bool)
    ensures
        r == instant_le(a, b),
{
    a.0 < b.0 || (a.0 == b.0 && a.1 <= b.1)
}

} // verus!

//! Temporal extents: time intervals with open ends, the first interval
//! describing the overall span.

use vstd::prelude::*;
use crate::numeral::{push_i64, push_u64_pad2, spec_dec_pad2, spec_dec_signed};
use crate::time::{instant_le, parse_utc_datetime, utc_instant};

verus! {

/// The temporal extents of a grouping: each interval is a pair of
/// timestamps, either of which may be absent for an open end. The first
/// interval always describes the overall extent.
#[derive(Debug, Clone, PartialEq, Eq)]
pub struct TemporalExtent {
    /// The intervals; each inner list holds exactly two elements in a valid
    /// extent.
    pub interval: Vec<Vec<Option<String>>>,
}

/// The instant the interval's bound at `idx` denotes, when the interval has
/// such a bound and it reads as a timestamp.
pub open spec fn bound_instant(e: Vec<Option<String>>, idx: int) -> Option<(i64, u32)> {
    if 0 <= idx < e@.len() && e@[idx] is Some {
        utc_instant(e@[idx]->Some_0@)
    } else {
        None
    }
}

/// The earliest readable start over the intervals.
pub open spec fn spec_earliest_start(s: Seq<Vec<Option<String>>>) -> Option<(i64, u32)>
    decreases s.len(),
{
    if s.len() == 0 {
        None
    } else {
        combine_min(spec_earliest_start(s.drop_last()), bound_instant(s.last(), 0))
    }
}

/// The latest readable end over the intervals.
pub open spec fn spec_latest_end(s: Seq<Vec<Option<String>>>) -> Option<(i64, u32)>
    decreases s.len(),
{
    if s.len() == 0 {
        None
    } else {
        combine_max(spec_latest_end(s.drop_last()), bound_instant(s.last(), 1))
    }
}

/// The earlier of two optional instants.
pub open spec fn combine_min(a: Option<(i64, u32)>, b: Option<(i64, u32)>) -> Option<(i64, u32)> {
    match (a, b) {
        (None, x) => x,
        (x, None) => x,
        (Some(x), Some(y)) => if instant_le(x, y) {
            Some(x)
        } else {
            Some(y)
        },
    }
}

/// The later of two optional instants.
pub open spec fn combine_max(a: Option<(i64, u32)>, b: Option<(i64, u32)>) -> Option<(i64, u32)> {
    match (a, b) {
        (None, x) => x,
        (x, None) => x,
        (Some(x), Some(y)) => if instant_le(x, y) {
            Some(y)
        } else {
            Some(x)
        },
    }
}

impl TemporalExtent {
    /// An extent with the given intervals.
    pub fn new(interval: Vec<Vec<Option<String>>>) -> (r: TemporalExtent)
        ensures
            r.interval == interval,
    {
        TemporalExtent { interval }
    }

    /// An extent of one interval from `start` to `end`; an absent bound
    /// leaves that end open.
    pub fn single_interval(start: Option<String>, end: Option<String>) -> (r: TemporalExtent)
        ensures
            r.interval@.len() == 1,
            r.interval@[0]@.len() == 2,
            r.interval@[0]@[0] == start,
            r.interval@[0]@[1] == end,
    {
        let mut pair: Vec<Option<String>> = Vec::new();
        pair.push(start);
        pair.push(end);
        let mut interval: Vec<Vec<Option<String>>> = Vec::new();
        interval.push(pair);
        TemporalExtent { interval }
    }

    /// An extent of one interval whose bounds, where given, must read as
    /// timestamps; a bound that does not names itself in the error.
    pub fn from_rfc3339_interval(start: Option<&str>, end: Option<&str>) -> (r: Result<
        TemporalExtent,
        String,
    >)
        ensures
            (r is Ok) <==> ((start matches Some(s) ==> utc_instant(s@) is Some) && (
            end matches Some(e) ==> utc_instant(e@) is Some)),
            r matches Ok(ext) ==> ext.interval@.len() == 1 && ext.interval@[0]@.len() == 2 && (
            match start {
                Some(s) => ext.interval@[0]@[0] matches Some(v) && v@ == s@,
                None => ext.interval@[0]@[0] is None,
            }) && (match end {
                Some(e) => ext.interval@[0]@[1] matches Some(v) && v@ == e@,
                None => ext.interval@[0]@[1] is None,
            }),
            r matches Err(m) ==> ((start matches Some(s) && utc_instant(s@) is None && m@
                == "Invalid RFC 3339 start timestamp: "@ + s@) || ((start matches Some(s)
                ==> utc_instant(s@) is Some) && (end matches Some(e) && utc_instant(e@) is None
                && m@ == "Invalid RFC 3339 end timestamp: "@ + e@))),
    {
        let start_owned: Option<String> = match start {
            Some(s) => {
                if parse_utc_datetime(s).is_none() {
                    let mut m = "Invalid RFC 3339 start timestamp: ".to_owned();
                    m.append(s);
                    return Err(m);
                }
                Some(s.to_owned())
            },
            None => None,
        };
        let end_owned: Option<String> = match end {
            Some(e) => {
                if parse_utc_datetime(e).is_none() {
                    let mut m = "Invalid RFC 3339 end timestamp: ".to_owned();
                    m.append(e);
                    return Err(m);
                }
                Some(e.to_owned())
            },
            None => None,
        };
        Ok(TemporalExtent::single_interval(start_owned, end_owned))
    }

    /// An extent of one interval whose owned bounds, where given, must read
    /// as timestamps.
    pub fn single_interval_validated(start: Option<String>, end: Option<String>) -> (r: Result<
        TemporalExtent,
        String,
    >)
        ensures
            (r is Ok) <==> ((start matches Some(s) ==> utc_instant(s@) is Some) && (
            end matches Some(e) ==> utc_instant(e@) is Some)),
            r matches Ok(ext) ==> ext.interval@.len() == 1 && ext.interval@[0]@.len() == 2
                && ext.interval@[0]@[0] == start && ext.interval@[0]@[1] == end,
            r matches Err(m) ==> ((start matches Some(s) && utc_instant(s@) is None && m@
                == "Invalid RFC 3339 start timestamp: "@ + s@) || ((start matches Some(s)
                ==> utc_instant(s@) is Some) && (end matches Some(e) && utc_instant(e@) is None
                && m@ == "Invalid RFC 3339 end timestamp: "@ + e@))),
    {
        if let Some(s) = &start {
            if parse_utc_datetime(s.as_str()).is_none() {
                let mut m = "Invalid RFC 3339 start timestamp: ".to_owned();
                m.append(s.as_str());
                return Err(m);
            }
        }
        if let Some(e) = &end {
            if parse_utc_datetime(e.as_str()).is_none() {
                let mut m = "Invalid RFC 3339 end timestamp: ".to_owned();
                m.append(e.as_str());
                return Err(m);
            }
        }
        Ok(TemporalExtent::single_interval(start, end))
    }

    /// An extent covering one calendar year.
    pub fn year(year: i32) -> (r: TemporalExtent)
        ensures
            r.interval@.len() == 1,
            r.interval@[0]@.len() == 2,
            r.interval@[0]@[0] matches Some(s) && s@ == spec_dec_signed(year as int)
                + "-01-01T00:00:00Z"@,
            r.interval@[0]@[1] matches Some(e) && e@ == spec_dec_signed(year as int)
                + "-12-31T23:59:59Z"@,
    {
        let mut start = String::new();
        push_i64(&mut start, year as i64);
        start.append("-01-01T00:00:00Z");
        let mut end = String::new();
        push_i64(&mut end, year as i64);
        end.append("-12-31T23:59:59Z");
        TemporalExtent::single_interval(Some(start), Some(end))
    }

    /// An extent covering one calendar month: from its first instant to the
    /// first instant of the following month.
    pub fn month(year: i32, month: u32) -> (r: Result<TemporalExtent, String>)
        ensures
            (r is Ok) <==> (1 <= month <= 12),
            r matches Err(m) ==> m@ == "Month must be between 1 and 12"@,
            r matches Ok(ext) ==> {
                let end_month: int = if month == 12 {
                    1
                } else {
                    month + 1
                };
                let end_year: int = if month == 12 {
                    year + 1
                } else {
                    year as int
                };
                &&& ext.interval@.len() == 1
                &&& ext.interval@[0]@.len() == 2
                &&& (ext.interval@[0]@[0] matches Some(s) && s@ == spec_dec_signed(year as int)
                    + "-"@ + spec_dec_pad2(month as int) + "-01T00:00:00Z"@)
                &&& (ext.interval@[0]@[1] matches Some(e) && e@ == spec_dec_signed(end_year) + "-"@
                    + spec_dec_pad2(end_month) + "-01T00:00:00Z"@)
            },
    {
        if month < 1 || month > 12 {
            return Err("Month must be between 1 and 12".to_owned());
        }
        let mut start = String::new();
        push_i64(&mut start, year as i64);
        start.append("-");
        push_u64_pad2(&mut start, month as u64);
        start.append("-01T00:00:00Z");
        let end_month: u32 = if month == 12 {
            1
        } else {
            month + 1
        };
        let end_year: i64 = if month == 12 {
            year as i64 + 1
        } else {
            year as i64
        };
        let mut end = String::new();
        push_i64(&mut end, end_year);
        end.append("-");
        push_u64_pad2(&mut end, end_month as u64);
        end.append("-01T00:00:00Z");
        Ok(TemporalExtent::single_interval(Some(start), Some(end)))
    }

    /// An extent covering one calendar day.
    pub fn day(year: i32, month: u32, day: u32) -> (r: Result<TemporalExtent, String>)
        ensures
            month < 1 || month > 12 ==> (r matches Err(m) && m@ == "Month must be between 1 and 12"@),
            1 <= month <= 12 && (day < 1 || day > 31) ==> (r matches Err(m) && m@
                == "Day must be between 1 and 31"@),
            (1 <= month <= 12 && 1 <= day <= 31) <==> r is Ok,
            r matches Ok(ext) ==> {
                &&& ext.interval@.len() == 1
                &&& ext.interval@[0]@.len() == 2
                &&& (ext.interval@[0]@[0] matches Some(s) && s@ == spec_dec_signed(year as int)
                    + "-"@ + spec_dec_pad2(month as int) + "-"@ + spec_dec_pad2(day as int)
                    + "T00:00:00Z"@)
                &&& (ext.interval@[0]@[1] matches Some(e) && e@ == spec_dec_signed(year as int)
                    + "-"@ + spec_dec_pad2(month as int) + "-"@ + spec_dec_pad2(day as int)
                    + "T23:59:59Z"@)
            },
    {
        if month < 1 || month > 12 {
            return Err("Month must be between 1 and 12".to_owned());
        }
        if day < 1 || day > 31 {
            return Err("Day must be between 1 and 31".to_owned());
        }
        let mut start = String::new();
        push_i64(&mut start, year as i64);
        start.append("-");
        push_u64_pad2(&mut start, month as u64);
        start.append("-");
        push_u64_pad2(&mut start, day as u64);
        start.append("T00:00:00Z");
        let mut end = String::new();
        push_i64(&mut end, year as i64);
        end.append("-");
        push_u64_pad2(&mut end, month as u64);
        end.append("-");
        push_u64_pad2(&mut end, day as u64);
        end.append("T23:59:59Z");
        Ok(TemporalExtent::single_interval(Some(start), Some(end)))
    }

    /// An open-ended extent from a start timestamp.
    pub fn from_start(start: String) -> (r: TemporalExtent)
        ensures
            r.interval@.len() == 1,
            r.interval@[0]@.len() == 2,
            r.interval@[0]@[0] == Some(start),
            r.interval@[0]@[1] is None,
    {
        TemporalExtent::single_interval(Some(start), None)
    }

    /// An open-ended extent up to an end timestamp.
    pub fn until_end(end: String) -> (r: TemporalExtent)
        ensures
            r.interval@.len() == 1,
            r.interval@[0]@.len() == 2,
            r.interval@[0]@[0] is None,
            r.interval@[0]@[1] == Some(end),
    {
        TemporalExtent::single_interval(None, Some(end))
    }

    /// A completely open extent.
    pub fn open() -> (r: TemporalExtent)
        ensures
            r.interval@.len() == 1,
            r.interval@[0]@.len() == 2,
            r.interval@[0]@[0] is None,
            r.interval@[0]@[1] is None,
    {
        TemporalExtent::single_interval(None, None)
    }

    /// Adds one more interval to the extent.
    pub fn add_interval(&mut self, start: Option<String>, end: Option<String>)
        ensures
            final(self).interval@.len() == old(self).interval@.len() + 1,
            final(self).interval@.subrange(0, old(self).interval@.len() as int) == old(
                self,
            ).interval@,
            final(self).interval@.last()@.len() == 2,
            final(self).interval@.last()@[0] == start,
            final(self).interval@.last()@[1] == end,
    {
        let mut pair: Vec<Option<String>> = Vec::new();
        pair.push(start);
        pair.push(end);
        self.interval.push(pair);
        proof {
            assert(self.interval@.subrange(0, old(self).interval@.len() as int) =~= old(
                self,
            ).interval@);
        }
    }

    /// The overall extent: the first interval, when one exists.
    pub fn overall_extent(&self) -> (r: Option<&Vec<Option<String>>>)
        ensures
            (r is Some) <==> self.interval@.len() > 0,
            r matches Some(e) ==> *e == self.interval@[0],
    {
        if self.interval.len() > 0 {
            Some(&self.interval[0])
        } else {
            None
        }
    }

    /// Whether the extent is valid: at least one interval, each of exactly
    /// two elements.
    pub fn is_valid(&self) -> (r: bool)
        ensures
            r == (self.interval@.len() > 0 && (forall|i: int|
                0 <= i < self.interval@.len() ==> (#[trigger] self.interval@[i])@.len() == 2)),
    {
        if self.interval.len() == 0 {
            return false;
        }
        let n = self.interval.len();
        let mut i: usize = 0;
        while i < n
            invariant
                i <= n,
                n == self.interval@.len(),
                forall|j: int| 0 <= j < i ==> (#[trigger] self.interval@[j])@.len() == 2,
            decreases n - i,
        {
            if self.interval[i].len() != 2 {
                return false;
            }
            i = i + 1;
        }
        true
    }

    /// Whether every timestamp that is present reads as a date-and-time.
    pub fn has_valid_timestamps(&self) -> (r: bool)
        ensures
            r == (forall|i: int, j: int|
                0 <= i < self.interval@.len() && 0 <= j < (#[trigger] self.interval@[i])@.len()
                    && (#[trigger] self.interval@[i]@[j]) is Some ==> utc_instant(
                    self.interval@[i]@[j]->Some_0@,
                ) is Some),
    {
        let n = self.interval.len();
        let mut i: usize = 0;
        while i < n
            invariant
                i <= n,
                n == self.interval@.len(),
                forall|a: int, b: int|
                    0 <= a < i && 0 <= b < (#[trigger] self.interval@[a])@.len() && (
                    #[trigger] self.interval@[a]@[b]) is Some ==> utc_instant(
                        self.interval@[a]@[b]->Some_0@,
                    ) is Some,
            decreases n - i,
        {
            let e = &self.interval[i];
            let m = e.len();
            let mut j: usize = 0;
            while j < m
                invariant
                    j <= m,
                    m == e@.len(),
                    e == &self.interval@[i as int],
                    i < n == self.interval@.len(),
                    forall|b: int|
                        0 <= b < j && (#[trigger] e@[b]) is Some ==> utc_instant(
                            e@[b]->Some_0@,
                        ) is Some,
                decreases m - j,
            {
                if let Some(ts) = &e[j] {
                    if parse_utc_datetime(ts.as_str()).is_none() {
                        return false;
                    }
                }
                j = j + 1;
            }
            i = i + 1;
        }
        true
    }

    /// The earliest readable start over all intervals, as an instant.
    pub fn earliest_start(&self) -> (r: Option<(i64, u32)>)
        ensures
            r == spec_earliest_start(self.interval@),
    {
        let n = self.interval.len();
        let mut best: Option<(i64, u32)> = None;
        let mut i: usize = 0;
        proof {
            assert(self.interval@.take(0) =~= Seq::<Vec<Option<String>>>::empty());
        }
        while i < n
            invariant
                i <= n,
                n == self.interval@.len(),
                best == spec_earliest_start(self.interval@.take(i as int)),
            decreases n - i,
        {
            proof {
                assert(self.interval@.take(i + 1).drop_last() =~= self.interval@.take(i as int));
                assert(self.interval@.take(i + 1).last() == self.interval@[i as int]);
            }
            let e = &self.interval[i];
            let cand: Option<(i64, u32)> = if e.len() > 0 {
                match &e[0] {
                    Some(ts) => parse_utc_datetime(ts.as_str()),
                    None => None,
                }
            } else {
                None
            };
            proof {
                assert(cand == bound_instant(self.interval@[i as int], 0));
            }
            best = match (best, cand) {
                (None, x) => x,
                (x, None) => x,
                (Some(x), Some(y)) => {
                    if x.0 < y.0 || (x.0 == y.0 && x.1 <= y.1) {
                        Some(x)
                    } else {
                        Some(y)
                    }
                },
            };
            i = i + 1;
        }
        proof {
            assert(self.interval@.take(n as int) =~= self.interval@);
        }
        best
    }

    /// The latest readable end over all intervals, as an instant.
    pub fn latest_end(&self) -> (r: Option<(i64, u32)>)
        ensures
            r == spec_latest_end(self.interval@),
    {
        let n = self.interval.len();
        let mut best: Option<(i64, u32)> = None;
        let mut i: usize = 0;
        proof {
            assert(self.interval@.take(0) =~= Seq::<Vec<Option<String>>>::empty());
        }
        while i < n
            invariant
                i <= n,
                n == self.interval@.len(),
                best == spec_latest_end(self.interval@.take(i as int)),
            decreases n - i,
        {
            proof {
                assert(self.interval@.take(i + 1).drop_last() =~= self.interval@.take(i as int));
                assert(self.interval@.take(i + 1).last() == self.interval@[i as int]);
            }
            let e = &self.interval[i];
            let cand: Option<(i64, u32)> = if e.len() > 1 {
                match &e[1] {
                    Some(ts) => parse_utc_datetime(ts.as_str()),
                    None => None,
                }
            } else {
                None
            };
            proof {
                assert(cand == bound_instant(self.interval@[i as int], 1));
            }
            best = match (best, cand) {
                (None, x) => x,
                (x, None) => x,
                (Some(x), Some(y)) => {
                    if x.0 < y.0 || (x.0 == y.0 && x.1 <= y.1) {
                        Some(y)
                    } else {
                        Some(x)
                    }
                },
            };
            i = i + 1;
        }
        proof {
            assert(self.interval@.take(n as int) =~= self.interval@);
        }
        best
    }
}

} // verus!

//! Ranges for property summaries: a minimum and a maximum, either numbers
//! in fixed point or ordinal strings.

use vstd::prelude::*;
use crate::numeral::{push_i64, spec_dec_pad2, spec_dec_signed, push_u64_pad2};
use crate::strutil::{lex_le, str_le};

verus! {

/// A summary range: minimum and maximum of an ordinal property.
#[derive(Debug, Clone, PartialEq, Eq)]
pub struct Range {
    /// The least value.
    pub minimum: RangeValue,
    /// The greatest value.
    pub maximum: RangeValue,
}

/// One bound of a range: a fixed-point number in millionths, or an ordinal
/// string such as a grade or a date.
#[derive(Debug, Clone, PartialEq, Eq)]
pub enum RangeValue {
    /// A number, in millionths.
    Number(i64),
    /// An ordinal string.
    Text(String),
}

impl Range {
    /// A range with the given bounds.
    pub fn new(minimum: RangeValue, maximum: RangeValue) -> (r: Range)
        ensures
            r.minimum == minimum,
            r.maximum == maximum,
    {
        Range { minimum, maximum }
    }

    /// A numeric range, bounds in millionths.
    pub fn numeric(min: i64, max: i64) -> (r: Range)
        ensures
            r.minimum == RangeValue::Number(min),
            r.maximum == RangeValue::Number(max),
    {
        Range { minimum: RangeValue::Number(min), maximum: RangeValue::Number(max) }
    }

    /// A string range.
    pub fn string(min: String, max: String) -> (r: Range)
        ensures
            r.minimum == RangeValue::Text(min),
            r.maximum == RangeValue::Text(max),
    {
        Range { minimum: RangeValue::Text(min), maximum: RangeValue::Text(max) }
    }

    /// A string range from borrowed bounds.
    pub fn string_ref(min: &str, max: &str) -> (r: Range)
        ensures
            (r.minimum matches RangeValue::Text(m) && m@ == min@),
            (r.maximum matches RangeValue::Text(m) && m@ == max@),
    {
        Range::string(min.to_owned(), max.to_owned())
    }

    /// The range of plain grades.
    pub fn grades() -> (r: Range)
        ensures
            (r.minimum matches RangeValue::Text(m) && m@ == "A"@),
            (r.maximum matches RangeValue::Text(m) && m@ == "F"@),
    {
        Range::string_ref("A", "F")
    }

    /// The range of letter grades with modifiers.
    pub fn letter_grades() -> (r: Range)
        ensures
            (r.minimum matches RangeValue::Text(m) && m@ == "A+"@),
            (r.maximum matches RangeValue::Text(m) && m@ == "F-"@),
    {
        Range::string_ref("A+", "F-")
    }

    /// A range over a time period given by its bounds.
    pub fn time_period(start_time: &str, end_time: &str) -> (r: Range)
        ensures
            (r.minimum matches RangeValue::Text(m) && m@ == start_time@),
            (r.maximum matches RangeValue::Text(m) && m@ == end_time@),
    {
        Range::string_ref(start_time, end_time)
    }

    /// A range over a date period given by its bounds.
    pub fn date_period(start_date: &str, end_date: &str) -> (r: Range)
        ensures
            (r.minimum matches RangeValue::Text(m) && m@ == start_date@),
            (r.maximum matches RangeValue::Text(m) && m@ == end_date@),
    {
        Range::string_ref(start_date, end_date)
    }

    /// The date range of one calendar year.
    pub fn year(year: i32) -> (r: Range)
        ensures
            (r.minimum matches RangeValue::Text(m) && m@ == spec_dec_signed(year as int)
                + "-01-01"@),
            (r.maximum matches RangeValue::Text(m) && m@ == spec_dec_signed(year as int)
                + "-12-31"@),
    {
        let mut start = String::new();
        push_i64(&mut start, year as i64);
        start.append("-01-01");
        let mut end = String::new();
        push_i64(&mut end, year as i64);
        end.append("-12-31");
        Range::string(start, end)
    }

    /// How many days the month has, minding leap years.
    pub open spec fn spec_month_end_day(year: int, month: int) -> int {
        if month == 2 {
            if (year % 4 == 0 && year % 100 != 0) || year % 400 == 0 {
                29
            } else {
                28
            }
        } else if month == 4 || month == 6 || month == 9 || month == 11 {
            30
        } else {
            31
        }
    }

    /// The date range of one calendar month, minding leap years.
    pub fn month(year: i32, month: u32) -> (r: Result<Range, String>)
        ensures
            (r is Ok) <==> (1 <= month <= 12),
            r matches Err(m) ==> m@ == "Month must be between 1 and 12"@,
            r matches Ok(rg) ==> {
                &&& (rg.minimum matches RangeValue::Text(m) && m@ == spec_dec_signed(year as int)
                    + "-"@ + spec_dec_pad2(month as int) + "-01"@)
                &&& (rg.maximum matches RangeValue::Text(m) && m@ == spec_dec_signed(year as int)
                    + "-"@ + spec_dec_pad2(month as int) + "-"@ + spec_dec_pad2(
                    Range::spec_month_end_day(year as int, month as int),
                ))
            },
    {
        if month < 1 || month > 12 {
            return Err("Month must be between 1 and 12".to_owned());
        }
        let mut start = String::new();
        push_i64(&mut start, year as i64);
        start.append("-");
        push_u64_pad2(&mut start, month as u64);
        start.append("-01");
        let end_day: u64 = if month == 2 {
            if (year % 4 == 0 && year % 100 != 0) || year % 400 == 0 {
                29
            } else {
                28
            }
        } else if month == 4 || month == 6 || month == 9 || month == 11 {
            30
        } else {
            31
        };
        let mut end = String::new();
        push_i64(&mut end, year as i64);
        end.append("-");
        push_u64_pad2(&mut end, month as u64);
        end.append("-");
        push_u64_pad2(&mut end, end_day);
        Ok(Range::string(start, end))
    }

    /// Whether the two bounds are of the same kind.
    pub fn is_valid(&self) -> (r: bool)
        ensures
            r == ((self.minimum is Number && self.maximum is Number) || (self.minimum is Text
                && self.maximum is Text)),
    {
        match (&self.minimum, &self.maximum) {
            (RangeValue::Number(_), RangeValue::Number(_)) => true,
            (RangeValue::Text(_), RangeValue::Text(_)) => true,
            _ => false,
        }
    }

    /// Whether both bounds are numbers.
    pub fn is_numeric(&self) -> (r: bool)
        ensures
            r == (self.minimum is Number && self.maximum is Number),
    {
        match (&self.minimum, &self.maximum) {
            (RangeValue::Number(_), RangeValue::Number(_)) => true,
            _ => false,
        }
    }

    /// Whether both bounds are strings.
    pub fn is_string(&self) -> (r: bool)
        ensures
            r == (self.minimum is Text && self.maximum is Text),
    {
        match (&self.minimum, &self.maximum) {
            (RangeValue::Text(_), RangeValue::Text(_)) => true,
            _ => false,
        }
    }

    /// The least value as a number, when it is one.
    pub fn min_number(&self) -> (r: Option<i64>)
        ensures
            r == (match self.minimum {
                RangeValue::Number(n) => Some(n),
                RangeValue::Text(_) => None::<i64>,
            }),
    {
        match &self.minimum {
            RangeValue::Number(n) => Some(*n),
            RangeValue::Text(_) => None,
        }
    }

    /// The greatest value as a number, when it is one.
    pub fn max_number(&self) -> (r: Option<i64>)
        ensures
            r == (match self.maximum {
                RangeValue::Number(n) => Some(n),
                RangeValue::Text(_) => None::<i64>,
            }),
    {
        match &self.maximum {
            RangeValue::Number(n) => Some(*n),
            RangeValue::Text(_) => None,
        }
    }

    /// The least value as a string, when it is one.
    pub fn min_string(&self) -> (r: Option<&str>)
        ensures
            (r is Some) <==> (self.minimum is Text),
            r matches Some(s) ==> s@ == self.minimum->Text_0@,
    {
        match &self.minimum {
            RangeValue::Text(s) => Some(s.as_str()),
            RangeValue::Number(_) => None,
        }
    }

    /// The greatest value as a string, when it is one.
    pub fn max_string(&self) -> (r: Option<&str>)
        ensures
            (r is Some) <==> (self.maximum is Text),
            r matches Some(s) ==> s@ == self.maximum->Text_0@,
    {
        match &self.maximum {
            RangeValue::Text(s) => Some(s.as_str()),
            RangeValue::Number(_) => None,
        }
    }

    /// The width of a numeric range, in millionths.
    pub fn span(&self) -> (r: Option<i64>)
        requires
            (match (self.minimum, self.maximum) {
                (RangeValue::Number(a), RangeValue::Number(b)) => i64::MIN <= b - a <= i64::MAX,
                _ => true,
            }),
        ensures
            r == (match (self.minimum, self.maximum) {
                (RangeValue::Number(a), RangeValue::Number(b)) => Some((b - a) as i64),
                _ => None::<i64>,
            }),
    {
        match (&self.minimum, &self.maximum) {
            (RangeValue::Number(a), RangeValue::Number(b)) => Some(*b - *a),
            _ => None,
        }
    }

    /// Whether a number falls inside a numeric range, bounds included.
    pub fn contains_number(&self, value: i64) -> (r: bool)
        ensures
            r == (match (self.minimum, self.maximum) {
                (RangeValue::Number(a), RangeValue::Number(b)) => a <= value && value <= b,
                _ => false,
            }),
    {
        match (&self.minimum, &self.maximum) {
            (RangeValue::Number(a), RangeValue::Number(b)) => *a <= value && value <= *b,
            _ => false,
        }
    }

    /// Whether a string falls inside a string range lexicographically,
    /// bounds included.
    pub fn contains_text(&self, value: &str) -> (r: bool)
        ensures
            r == (match (self.minimum, self.maximum) {
                (RangeValue::Text(a), RangeValue::Text(b)) => lex_le(a@, value@) && lex_le(
                    value@,
                    b@,
                ),
                _ => false,
            }),
    {
        match (&self.minimum, &self.maximum) {
            (RangeValue::Text(a), RangeValue::Text(b)) => str_le(a.as_str(), value) && str_le(
                value,
                b.as_str(),
            ),
            _ => false,
        }
    }
}

} // verus!

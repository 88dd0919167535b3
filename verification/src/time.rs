//! Dates and times.

use vstd::prelude::*;

use crate::error::{self, StatementError, ErrorModel};
use crate::text;
use crate::time_laws;

verus! {

#[derive(Debug, Clone, Copy, PartialEq, Eq, Structural)]
pub struct Date {
    pub year: u16,
    pub month: u8,
    pub day: u8,
}

#[derive(Debug, Clone, Copy, PartialEq, Eq, Structural)]
pub struct Time {
    pub hour: u8,
    pub minute: u8,
    pub second: u8,
}

#[derive(Debug, Clone, Copy, PartialEq, Eq, Structural)]
pub struct DateTime {
    pub date: Date,
    pub time: Time,
}

/// A moment whose time of day may be unknown.
#[derive(Debug, Clone, Copy, PartialEq, Eq, Structural)]
pub struct DateOptTime {
    pub date: Date,
    pub time: Option<Time>,
}

pub open spec fn is_leap_year(year: nat) -> bool {
    year % 4 == 0 && (year % 100 != 0 || year % 400 == 0)
}

pub open spec fn days_in_month(year: nat, month: nat) -> nat {
    if month == 2 {
        if is_leap_year(year) {
            29
        } else {
            28
        }
    } else if month == 4 || month == 6 || month == 9 || month == 11 {
        30
    } else {
        31
    }
}

/// A date of the calendar.
pub open spec fn is_date(year: nat, month: nat, day: nat) -> bool {
    1 <= month <= 12 && 1 <= day <= days_in_month(year, month)
}

/// A time of the day.
pub open spec fn is_time(hour: nat, minute: nat, second: nat) -> bool {
    hour < 24 && minute < 60 && second < 60
}

/// The number written at the positions from `from` up to `to`.
pub open spec fn number_at(s: Seq<char>, from: int, to: int) -> Option<nat> {
    text::bounded_number(s.subrange(from, to), 9999)
}

/// The date that a text of the form `YYYY-MM-DD` denotes.
pub open spec fn date_of(s: Seq<char>) -> Option<Date> {
    if s.len() != 10 || s[4] != '-' || s[7] != '-' {
        None
    } else {
        match (number_at(s, 0, 4), number_at(s, 5, 7), number_at(s, 8, 10)) {
            (Some(year), Some(month), Some(day)) if is_date(year, month, day) => Some(
                Date { year: year as u16, month: month as u8, day: day as u8 },
            ),
            _ => None,
        }
    }
}

/// The time that a text of the form `HH:MM:SS` denotes.
pub open spec fn time_of(s: Seq<char>) -> Option<Time> {
    if s.len() != 8 || s[2] != ':' || s[5] != ':' {
        None
    } else {
        match (number_at(s, 0, 2), number_at(s, 3, 5), number_at(s, 6, 8)) {
            (Some(hour), Some(minute), Some(second)) if is_time(hour, minute, second) => Some(
                Time { hour: hour as u8, minute: minute as u8, second: second as u8 },
            ),
            _ => None,
        }
    }
}

/// The moment that a text of the form `YYYY-MM-DD, HH:MM:SS` denotes.
pub open spec fn date_time_of(s: Seq<char>) -> Option<DateTime> {
    if s.len() != 20 || s[10] != ',' || s[11] != ' ' {
        None
    } else {
        match (date_of(s.take(10)), time_of(s.skip(12))) {
            (Some(date), Some(time)) => Some(DateTime { date, time }),
            _ => None,
        }
    }
}

impl Date {
    /// A number that orders dates.
    pub open spec fn ordinal(self) -> int {
        (self.year * 0x100 + self.month) * 0x100 + self.day
    }

    /// Whether the date is earlier.
    pub fn is_before(self, other: Date) -> (r: bool)
        ensures
            r == (self.ordinal() < other.ordinal()),
            r == time_laws::is_earlier_date(self, other),
    {
        self.year < other.year || self.year == other.year && (self.month < other.month
            || self.month == other.month && self.day < other.day)
    }

    /// The moment of that date at an unknown time.
    pub fn to_date_opt_time(self) -> (r: DateOptTime)
        ensures
            r == (DateOptTime { date: self, time: None }),
    {
        DateOptTime { date: self, time: None }
    }
}

impl Time {
    /// A number that orders times.
    pub open spec fn ordinal(self) -> int {
        (self.hour * 0x100 + self.minute) * 0x100 + self.second
    }

    /// Whether the time is earlier.
    pub fn is_before(self, other: Time) -> (r: bool)
        ensures
            r == (self.ordinal() < other.ordinal()),
            r == time_laws::is_earlier_time(self, other),
    {
        self.hour < other.hour || self.hour == other.hour && (self.minute < other.minute
            || self.minute == other.minute && self.second < other.second)
    }
}

impl DateTime {
    /// The moment with a known time.
    pub fn to_date_opt_time(self) -> (r: DateOptTime)
        ensures
            r == (DateOptTime { date: self.date, time: Some(self.time) }),
    {
        DateOptTime { date: self.date, time: Some(self.time) }
    }
}

/// Dates are told apart by what orders them.
pub proof fn date_ordinal_is_injective(a: Date, b: Date)
    ensures
        a.ordinal() == b.ordinal() <==> a == b,
{
}

/// Times are told apart by what orders them.
pub proof fn time_ordinal_is_injective(a: Time, b: Time)
    ensures
        a.ordinal() == b.ordinal() <==> a == b,
{
}

fn read_number(chars: &Vec<char>, from: usize, to: usize) -> (r: Option<u32>)
    requires
        from <= to <= chars@.len(),
    ensures
        r is Some <==> number_at(chars@, from as int, to as int) is Some,
        r matches Some(n) ==> number_at(chars@, from as int, to as int) == Some(n as nat) && n
            <= 9999,
{
    match text::number_between(chars, from, to, 9999) {
        Some(n) => Some(n as u32),
        None => None,
    }
}

/// Reads the date at a position.
fn read_date(chars: &Vec<char>, at: usize) -> (r: Option<Date>)
    requires
        at + 10 <= chars.len(),
    ensures
        r == date_of(chars@.subrange(at as int, at + 10)),
{
    let ghost s = chars@.subrange(at as int, at + 10);
    assert(s.subrange(0, 4) =~= chars@.subrange(at as int, at + 4));
    assert(s.subrange(5, 7) =~= chars@.subrange(at + 5, at + 7));
    assert(s.subrange(8, 10) =~= chars@.subrange(at + 8, at + 10));
    if chars[at + 4] != '-' || chars[at + 7] != '-' {
        return None;
    }
    match (
        read_number(chars, at, at + 4),
        read_number(chars, at + 5, at + 7),
        read_number(chars, at + 8, at + 10),
    ) {
        (Some(year), Some(month), Some(day)) => {
            let leap: bool = year % 4 == 0 && (year % 100 != 0 || year % 400 == 0);
            let days: u32 = if month == 2 {
                if leap {
                    29
                } else {
                    28
                }
            } else if month == 4 || month == 6 || month == 9 || month == 11 {
                30
            } else {
                31
            };
            if 1 <= month && month <= 12 && 1 <= day && day <= days {
                Some(Date { year: year as u16, month: month as u8, day: day as u8 })
            } else {
                None
            }
        },
        _ => None,
    }
}

/// Reads the time at a position.
fn read_time(chars: &Vec<char>, at: usize) -> (r: Option<Time>)
    requires
        at + 8 <= chars.len(),
    ensures
        r == time_of(chars@.subrange(at as int, at + 8)),
{
    let ghost s = chars@.subrange(at as int, at + 8);
    assert(s.subrange(0, 2) =~= chars@.subrange(at as int, at + 2));
    assert(s.subrange(3, 5) =~= chars@.subrange(at + 3, at + 5));
    assert(s.subrange(6, 8) =~= chars@.subrange(at + 6, at + 8));
    if chars[at + 2] != ':' || chars[at + 5] != ':' {
        return None;
    }
    match (
        read_number(chars, at, at + 2),
        read_number(chars, at + 3, at + 5),
        read_number(chars, at + 6, at + 8),
    ) {
        (Some(hour), Some(minute), Some(second)) => {
            if hour < 24 && minute < 60 && second < 60 {
                Some(Time { hour: hour as u8, minute: minute as u8, second: second as u8 })
            } else {
                None
            }
        },
        _ => None,
    }
}

/// What reading a date comes to.
pub open spec fn parsed_date(s: Seq<char>) -> Result<Date, ErrorModel> {
    match date_of(s) {
        Some(date) => Ok(date),
        None => Err(ErrorModel::InvalidDate(s)),
    }
}

/// What reading a date with a time comes to.
pub open spec fn parsed_date_time(s: Seq<char>) -> Result<DateTime, ErrorModel> {
    match date_time_of(s) {
        Some(time) => Ok(time),
        None => Err(ErrorModel::InvalidDateTime(s)),
    }
}

/// Reads a date of the form `YYYY-MM-DD`.
pub fn parse_date(string: &str) -> (r: Result<Date, StatementError>)
    ensures
        error::outcome(r) == parsed_date(string@),
{
    let chars = text::to_chars(string);
    if chars.len() == 10 {
        assert(chars@.subrange(0, 10) =~= string@);
        if let Some(date) = read_date(&chars, 0) {
            return Ok(date);
        }
    }
    Err(StatementError::InvalidDate(string.to_owned()))
}

/// Reads a date with a time, of the form `YYYY-MM-DD, HH:MM:SS`.
pub fn parse_date_time(string: &str) -> (r: Result<DateTime, StatementError>)
    ensures
        error::outcome(r) == parsed_date_time(string@),
{
    let chars = text::to_chars(string);
    if chars.len() == 20 && chars[10] == ',' && chars[11] == ' ' {
        assert(chars@.subrange(0, 10) =~= string@.take(10));
        assert(chars@.subrange(12, 20) =~= string@.skip(12));
        if let (Some(date), Some(time)) = (read_date(&chars, 0), read_time(&chars, 12)) {
            return Ok(DateTime { date, time });
        }
    }
    Err(StatementError::InvalidDateTime(string.to_owned()))
}

} // verus!

//! What holds of all dates and times.

use vstd::prelude::*;

use crate::time::{self, Date, DateTime, Time};

verus! {

/// Whether a date is earlier in the calendar: by the year, then by the month, then by the day.
pub open spec fn is_earlier_date(a: Date, b: Date) -> bool {
    ||| a.year < b.year
    ||| a.year == b.year && a.month < b.month
    ||| a.year == b.year && a.month == b.month && a.day < b.day
}

/// Whether a time is earlier in the day: by the hour, then by the minute, then by the second.
pub open spec fn is_earlier_time(a: Time, b: Time) -> bool {
    ||| a.hour < b.hour
    ||| a.hour == b.hour && a.minute < b.minute
    ||| a.hour == b.hour && a.minute == b.minute && a.second < b.second
}

/// Dates are ordered as in the calendar, and two dates have the same place in that order only if
/// year, month and day are the same.
pub proof fn dates_are_ordered_by_the_calendar(a: Date, b: Date)
    ensures
        a.ordinal() < b.ordinal() <==> is_earlier_date(a, b),
        a.ordinal() == b.ordinal() <==> a.year == b.year && a.month == b.month && a.day == b.day,
{
}

/// Times are ordered as in the day, and two times have the same place in that order only if hour,
/// minute and second are the same.
pub proof fn times_are_ordered_by_the_clock(a: Time, b: Time)
    ensures
        a.ordinal() < b.ordinal() <==> is_earlier_time(a, b),
        a.ordinal() == b.ordinal() <==> a.hour == b.hour && a.minute == b.minute && a.second
            == b.second,
{
}

/// The character of a decimal digit.
pub open spec fn digit(n: int) -> char {
    (48 + n) as char
}

/// Whether a year has a 29th of February.
pub open spec fn has_leap_day(year: int) -> bool {
    year % 400 == 0 || year % 4 == 0 && year % 100 != 0
}

/// Whether the calendar has the date.
pub open spec fn is_calendar_date(date: Date) -> bool {
    &&& date.year <= 9999
    &&& 1 <= date.month <= 12
    &&& 1 <= date.day <= 31
    &&& date.month == 4 || date.month == 6 || date.month == 9 || date.month == 11 ==> date.day <= 30
    &&& date.month == 2 ==> date.day <= 29
    &&& date.month == 2 && !has_leap_day(date.year as int) ==> date.day <= 28
}

/// Whether a text is the year, the month and the day in four, two and two digits, with dashes
/// between them.
pub open spec fn writes_date(s: Seq<char>, date: Date) -> bool {
    s == seq![
        digit(date.year as int / 1000),
        digit(date.year as int / 100 % 10),
        digit(date.year as int / 10 % 10),
        digit(date.year as int % 10),
        '-',
        digit(date.month as int / 10),
        digit(date.month as int % 10),
        '-',
        digit(date.day as int / 10),
        digit(date.day as int % 10),
    ]
}

/// Whether a text is the hour, the minute and the second in two digits each, with colons between
/// them.
pub open spec fn writes_time(s: Seq<char>, time: Time) -> bool {
    s == seq![
        digit(time.hour as int / 10),
        digit(time.hour as int % 10),
        ':',
        digit(time.minute as int / 10),
        digit(time.minute as int % 10),
        ':',
        digit(time.second as int / 10),
        digit(time.second as int % 10),
    ]
}

proof fn lemma_two_digits(s: Seq<char>, from: int)
    requires
        0 <= from && from + 2 <= s.len(),
    ensures
        time::number_at(s, from, from + 2) matches Some(n) ==> n < 100 && s[from] == digit(
            n as int / 10,
        ) && s[from + 1] == digit(n as int % 10),
        forall|n: int|
            #![trigger digit(n / 10)]
            0 <= n < 100 && s[from] == digit(n / 10) && s[from + 1] == digit(n % 10)
                ==> time::number_at(s, from, from + 2) == Some(n as nat),
{
    let part = s.subrange(from, from + 2);
    reveal_with_fuel(crate::text::digits_value, 4);
    assert(part.drop_last().drop_last() =~= Seq::empty());
    assert(part[0] == s[from] && part[1] == s[from + 1]);
    assert(part.drop_last()[0] == s[from]);
    if let Some(n) = time::number_at(s, from, from + 2) {
        assert(crate::text::is_digit(part[0]) && crate::text::is_digit(part[1]));
        assert(n == 10 * crate::text::digit_value(s[from]) + crate::text::digit_value(s[from + 1]));
    }
}

/// The digits of a number of at most four places.
proof fn lemma_places(n: int)
    requires
        0 <= n <= 9999,
    ensures
        0 <= n / 1000 < 10,
        n == 1000 * (n / 1000) + 100 * (n / 100 % 10) + 10 * (n / 10 % 10) + n % 10,
{
    let tens = n / 10;
    let hundreds = tens / 10;
    assert(n / 100 == hundreds) by {
        vstd::arithmetic::div_mod::lemma_div_denominator(n, 10, 10);
    }
    assert(n / 1000 == hundreds / 10) by {
        vstd::arithmetic::div_mod::lemma_div_denominator(n, 100, 10);
    }
    assert(n == 10 * tens + n % 10);
    assert(tens == 10 * hundreds + tens % 10);
    assert(hundreds == 10 * (hundreds / 10) + hundreds % 10);
}

/// A number has no other digits than those it is made of.
proof fn lemma_same_places(n: int, a: int, b: int, c: int, d: int)
    requires
        0 <= n <= 9999,
        0 <= a < 10 && 0 <= b < 10 && 0 <= c < 10 && 0 <= d < 10,
        n == 1000 * a + 100 * b + 10 * c + d,
    ensures
        n / 1000 == a && n / 100 % 10 == b && n / 10 % 10 == c && n % 10 == d,
{
    lemma_places(n);
    let e = n / 1000;
    let f = n / 100 % 10;
    let g = n / 10 % 10;
    let h = n % 10;
    assert(0 <= f < 10 && 0 <= g < 10 && 0 <= h < 10);
}

proof fn lemma_four_digits_value(s: Seq<char>)
    requires
        s.len() >= 4,
    ensures
        time::number_at(s, 0, 4) is Some <==> forall|i: int|
            0 <= i < 4 ==> crate::text::is_digit(#[trigger] s[i]),
        time::number_at(s, 0, 4) matches Some(n) ==> n == 1000 * crate::text::digit_value(s[0])
            + 100 * crate::text::digit_value(s[1]) + 10 * crate::text::digit_value(s[2])
            + crate::text::digit_value(s[3]),
{
    let part = s.subrange(0, 4);
    reveal_with_fuel(crate::text::digits_value, 6);
    assert(part.drop_last().drop_last().drop_last().drop_last() =~= Seq::empty());
    assert(part[0] == s[0] && part[1] == s[1] && part[2] == s[2] && part[3] == s[3]);
    assert(crate::text::digits_value(part) == 1000 * crate::text::digit_value(s[0]) + 100
        * crate::text::digit_value(s[1]) + 10 * crate::text::digit_value(s[2])
        + crate::text::digit_value(s[3]));
    if crate::text::all_digits(part) {
        assert forall|i: int| 0 <= i < 4 implies crate::text::is_digit(#[trigger] s[i]) by {
            assert(crate::text::is_digit(part[i]));
        }
    }
}

proof fn lemma_four_digits(s: Seq<char>, n: int)
    requires
        s.len() >= 4,
        0 <= n,
    ensures
        time::number_at(s, 0, 4) == Some(n as nat) <==> n <= 9999 && s[0] == digit(n / 1000) && s[1]
            == digit(n / 100 % 10) && s[2] == digit(n / 10 % 10) && s[3] == digit(n % 10),
{
    lemma_four_digits_value(s);
    if n <= 9999 {
        lemma_places(n);
    }
    if time::number_at(s, 0, 4) == Some(n as nat) {
        assert(crate::text::is_digit(s[0]) && crate::text::is_digit(s[1]) && crate::text::is_digit(
            s[2],
        ) && crate::text::is_digit(s[3]));
        lemma_same_places(
            n,
            crate::text::digit_value(s[0]) as int,
            crate::text::digit_value(s[1]) as int,
            crate::text::digit_value(s[2]) as int,
            crate::text::digit_value(s[3]) as int,
        );
    }
}

/// A text is read as a date exactly if it writes a date of the calendar, and then as that date.
pub proof fn dates_are_read_as_written(s: Seq<char>, date: Date)
    ensures
        time::date_of(s) == Some(date) <==> writes_date(s, date) && is_calendar_date(date),
{
    if s.len() == 10 {
        lemma_four_digits(s, date.year as int);
        lemma_two_digits(s, 5);
        lemma_two_digits(s, 8);
        if writes_date(s, date) && is_calendar_date(date) {
            assert(s[0] == digit(date.year as int / 1000));
            assert(s[5] == digit(date.month as int / 10));
            assert(s[8] == digit(date.day as int / 10));
        }
        if time::date_of(s) == Some(date) {
            assert(s =~= seq![s[0], s[1], s[2], s[3], '-', s[5], s[6], '-', s[8], s[9]]);
        }
    }
}

/// A text is read as a time exactly if it writes a time of the day, and then as that time.
pub proof fn times_are_read_as_written(s: Seq<char>, time: Time)
    ensures
        time::time_of(s) == Some(time) <==> writes_time(s, time) && time.hour < 24 && time.minute
            < 60 && time.second < 60,
{
    if s.len() == 8 {
        lemma_two_digits(s, 0);
        lemma_two_digits(s, 3);
        lemma_two_digits(s, 6);
        if writes_time(s, time) {
            assert(s[0] == digit(time.hour as int / 10));
            assert(s[3] == digit(time.minute as int / 10));
            assert(s[6] == digit(time.second as int / 10));
        }
        if time::time_of(s) == Some(time) {
            assert(s =~= seq![s[0], s[1], ':', s[3], s[4], ':', s[6], s[7]]);
        }
    }
}

/// A text is read as a moment exactly if it is a date of the calendar, a comma, a space and a time
/// of the day.
pub proof fn moments_are_read_as_written(s: Seq<char>, moment: DateTime)
    ensures
        time::date_time_of(s) == Some(moment) <==> {
            &&& s.len() == 20
            &&& writes_date(s.subrange(0, 10), moment.date)
            &&& is_calendar_date(moment.date)
            &&& s[10] == ',' && s[11] == ' '
            &&& writes_time(s.subrange(12, 20), moment.time)
            &&& moment.time.hour < 24 && moment.time.minute < 60 && moment.time.second < 60
        },
{
    if s.len() == 20 {
        assert(s.take(10) =~= s.subrange(0, 10));
        assert(s.skip(12) =~= s.subrange(12, 20));
        dates_are_read_as_written(s.take(10), moment.date);
        times_are_read_as_written(s.skip(12), moment.time);
    }
}

/// A text that writes no date is refused, and so is one that writes no moment.
pub proof fn other_texts_are_refused(s: Seq<char>)
    ensures
        time::parsed_date(s) is Err <==> forall|date: Date|
            !(#[trigger] writes_date(s, date) && is_calendar_date(date)),
        time::parsed_date(s) matches Ok(date) ==> writes_date(s, date),
        time::parsed_date_time(s) matches Ok(moment) ==> time::date_time_of(s) == Some(moment),
        time::parsed_date_time(s) is Err <==> time::date_time_of(s) is None,
{
    assert forall|date: Date|
        time::date_of(s) == Some(date) <==> #[trigger] writes_date(s, date) && is_calendar_date(
            date,
        ) by {
        dates_are_read_as_written(s, date);
    }
    if let Some(date) = time::date_of(s) {
        assert(writes_date(s, date) && is_calendar_date(date));
    }
}

} // verus!

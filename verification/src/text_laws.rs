//! What holds of all texts.

use vstd::prelude::*;

use crate::formatting;
use crate::text;
use crate::time::Date;
use crate::time_laws;

verus! {

/// The digits are the ten characters from 0 to 9, and each stands for its number.
pub proof fn digits_stand_for_their_numbers(c: char, n: int)
    ensures
        text::is_digit(c) <==> 48 <= c as int <= 57,
        text::is_digit(c) ==> text::digit_value(c) == c as int - 48,
        0 <= n < 10 ==> text::digit_char(n as nat) as int == 48 + n,
{
}

/// A digit behind a number makes it ten times as large, and adds its own number.
pub proof fn digit_behind_a_number_counts_once(s: Seq<char>, c: char)
    requires
        48 <= c as int <= 57,
    ensures
        text::digits_value(Seq::empty()) == 0,
        text::digits_value(s.push(c)) == 10 * text::digits_value(s) + (c as int - 48),
{
    assert(s.push(c).drop_last() =~= s);
}

/// A number that is ten times as large, plus a number below ten, has one more digit.
pub proof fn number_is_written_digit_by_digit(n: nat, d: nat)
    requires
        d < 10,
    ensures
        text::number_digits(d) == seq![(48 + d) as char],
        n > 0 ==> text::number_digits(10 * n + d) == text::number_digits(n).push((48 + d) as char),
{
    assert((10 * n + d) / 10 == n);
    assert((10 * n + d) % 10 == d);
}

/// A number is written without zeros in front.
pub proof fn number_has_no_zeros_in_front(n: nat)
    ensures
        text::number_digits(n).len() > 0,
        n > 0 ==> text::number_digits(n)[0] != '0',
        n == 0 ==> text::number_digits(n) == seq!['0'],
    decreases n,
{
    if n >= 10 {
        number_has_no_zeros_in_front(n / 10);
    }
}

/// Numbers below a hundred are written in two places with a zero in front where they need one.
pub proof fn two_places_are_filled(n: int)
    requires
        0 <= n < 100,
    ensures
        text::padded_digits(n as nat, 2) == seq![(48 + n / 10) as char, (48 + n % 10) as char],
{
    reveal_with_fuel(text::number_digits, 2);
    assert(text::padded_digits(n as nat, 2) =~= seq![
        (48 + n / 10) as char,
        (48 + n % 10) as char,
    ]);
}

/// Numbers of up to four places are written in four places with zeros in front where they need
/// them.
pub proof fn four_places_are_filled(n: int)
    requires
        0 <= n <= 9999,
    ensures
        text::padded_digits(n as nat, 4) == seq![
            (48 + n / 1000) as char,
            (48 + n / 100 % 10) as char,
            (48 + n / 10 % 10) as char,
            (48 + n % 10) as char,
        ],
{
    assert(n / 100 == n / 10 / 10) by {
        vstd::arithmetic::div_mod::lemma_div_denominator(n, 10, 10);
    }
    assert(n / 1000 == n / 10 / 10 / 10) by {
        vstd::arithmetic::div_mod::lemma_div_denominator(n, 100, 10);
    }
    reveal_with_fuel(text::number_digits, 4);
    let a = (48 + n / 1000) as char;
    let b = (48 + n / 100 % 10) as char;
    let c = (48 + n / 10 % 10) as char;
    let d = (48 + n % 10) as char;
    if n >= 1000 {
        assert(text::number_digits(n as nat) =~= seq![a, b, c, d]);
    } else if n >= 100 {
        assert(text::number_digits(n as nat) =~= seq![b, c, d]);
    } else if n >= 10 {
        assert(text::number_digits(n as nat) =~= seq![c, d]);
    } else {
        assert(text::number_digits(n as nat) =~= seq![d]);
    }
    assert(text::padded_digits(n as nat, 4) =~= seq![a, b, c, d]);
}

/// A number that fills its places is written as it is, and in any case nothing but zeros come in
/// front of it.
pub proof fn full_places_are_written_as_they_are(n: nat, width: nat)
    ensures
        text::number_digits(n).len() >= width ==> text::padded_digits(n, width)
            == text::number_digits(n),
        text::number_digits(n).len() < width ==> {
            let padded = text::padded_digits(n, width);
            let start = width - text::number_digits(n).len();
            &&& padded.len() == width
            &&& forall|i: int| 0 <= i < start ==> padded[i] == '0'
            &&& padded.skip(start) == text::number_digits(n)
        },
{
    if text::number_digits(n).len() < width {
        assert(text::padded_digits(n, width).skip(width - text::number_digits(n).len())
            =~= text::number_digits(n));
    }
}

/// A date of a year of up to four places is written as the day, the month and the year, in two, two
/// and four digits with points between them.
pub proof fn date_is_written_day_first(date: Date)
    requires
        date.day < 100,
        date.month < 100,
        date.year <= 9999,
    ensures
        formatting::date_text(date) == seq![
            time_laws::digit(date.day as int / 10),
            time_laws::digit(date.day as int % 10),
            '.',
            time_laws::digit(date.month as int / 10),
            time_laws::digit(date.month as int % 10),
            '.',
            time_laws::digit(date.year as int / 1000),
            time_laws::digit(date.year as int / 100 % 10),
            time_laws::digit(date.year as int / 10 % 10),
            time_laws::digit(date.year as int % 10),
        ],
{
    two_places_are_filled(date.day as int);
    two_places_are_filled(date.month as int);
    four_places_are_filled(date.year as int);
    assert(formatting::date_text(date) =~= seq![
        time_laws::digit(date.day as int / 10),
        time_laws::digit(date.day as int % 10),
        '.',
        time_laws::digit(date.month as int / 10),
        time_laws::digit(date.month as int % 10),
        '.',
        time_laws::digit(date.year as int / 1000),
        time_laws::digit(date.year as int / 100 % 10),
        time_laws::digit(date.year as int / 10 % 10),
        time_laws::digit(date.year as int % 10),
    ]);
}

/// A later year is written with all its digits, behind the day and the month.
pub proof fn late_year_is_written_in_full(date: Date)
    requires
        date.day < 100,
        date.month < 100,
        date.year > 9999,
    ensures
        formatting::date_text(date) == seq![
            time_laws::digit(date.day as int / 10),
            time_laws::digit(date.day as int % 10),
            '.',
            time_laws::digit(date.month as int / 10),
            time_laws::digit(date.month as int % 10),
            '.',
        ] + text::number_digits(date.year as nat),
{
    two_places_are_filled(date.day as int);
    two_places_are_filled(date.month as int);
    reveal_with_fuel(text::number_digits, 5);
    assert(text::number_digits(date.year as nat).len() >= 5);
    assert(formatting::date_text(date) =~= seq![
        time_laws::digit(date.day as int / 10),
        time_laws::digit(date.day as int % 10),
        '.',
        time_laws::digit(date.month as int / 10),
        time_laws::digit(date.month as int % 10),
        '.',
    ] + text::number_digits(date.year as nat));
}

/// Folding keeps every character but a space behind a space.
pub proof fn only_spaces_behind_spaces_are_folded(s: Seq<char>, c: char)
    ensures
        text::folded_spaces(Seq::empty()) == Seq::<char>::empty(),
        c == ' ' && s.len() > 0 && s.last() == ' ' ==> text::folded_spaces(s.push(c))
            == text::folded_spaces(s),
        c != ' ' || s.len() == 0 || s.last() != ' ' ==> text::folded_spaces(s.push(c))
            == text::folded_spaces(s).push(c),
{
    assert(s.push(c).drop_last() =~= s);
    lemma_same_end(s);
}

proof fn lemma_same_end(s: Seq<char>)
    ensures
        text::folded_spaces(s).len() == 0 <==> s.len() == 0,
        s.len() > 0 ==> text::folded_spaces(s).last() == s.last(),
{
    if s.len() > 0 {
        lemma_folded_len(s.drop_last());
    }
}

proof fn lemma_folded_len(s: Seq<char>)
    ensures
        s.len() > 0 ==> text::folded_spaces(s).len() > 0,
    decreases s.len(),
{
    if s.len() > 0 {
        lemma_folded_len(s.drop_last());
    }
}

/// Removing a character keeps all others in their order.
pub proof fn only_the_character_is_removed(s: Seq<char>, c: char, d: char)
    ensures
        text::without(Seq::empty(), c) == Seq::<char>::empty(),
        text::without(s.push(c), c) == text::without(s, c),
        d != c ==> text::without(s.push(d), c) == text::without(s, c).push(d),
{
    assert(s.push(c).drop_last() =~= s);
    assert(s.push(d).drop_last() =~= s);
}

/// A text without the character stays as it is.
pub proof fn text_without_the_character_is_kept(s: Seq<char>, c: char)
    requires
        forall|i: int| 0 <= i < s.len() ==> s[i] != c,
    ensures
        text::without(s, c) == s,
    decreases s.len(),
{
    if s.len() > 0 {
        assert forall|i: int| 0 <= i < s.drop_last().len() implies s.drop_last()[i] != c by {
            assert(s.drop_last()[i] == s[i]);
        }
        text_without_the_character_is_kept(s.drop_last(), c);
        assert(s.drop_last().push(s.last()) =~= s);
    } else {
        assert(s =~= Seq::empty());
    }
}

} // verus!

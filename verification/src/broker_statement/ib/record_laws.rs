//! How the values of a record are read.

use vstd::arithmetic::power;
use vstd::prelude::*;

use crate::broker_statement::ib::common::{self, Record};
use crate::decimal::{self, Decimal, DecimalRestrictions};
use crate::decimal_laws;
use crate::error::{self, IntegerError};
use crate::text;
use crate::time;
use crate::time_laws;

verus! {

/// The value of a field stands in the record where the name of the field first stands among the
/// names, behind the offset. It is missing where the record ends earlier.
pub proof fn value_stands_where_its_field_stands(record: Record, field: Seq<char>, position: int)
    requires
        0 <= position < record.spec.fields@.len(),
        record.spec.fields@[position]@ == field,
        forall|i: int| 0 <= i < position ==> record.spec.fields@[i]@ != field,
    ensures
        record.spec.offset + position < record.values@.len() ==> record.value(field) == Ok::<
            Seq<char>,
            error::ErrorModel,
        >(record.values@[record.spec.offset + position]@),
        record.spec.offset + position >= record.values@.len() ==> record.value(field) == Err::<
            Seq<char>,
            error::ErrorModel,
        >(error::ErrorModel::MissingField(field)),
{
    common::lemma_field_position(record.spec.fields@, field, position);
}

/// The value of a field that has no name among the names is missing.
pub proof fn value_without_a_field_is_missing(record: Record, field: Seq<char>)
    requires
        forall|i: int| 0 <= i < record.spec.fields@.len() ==> record.spec.fields@[i]@ != field,
    ensures
        record.value(field) == Err::<Seq<char>, error::ErrorModel>(
            error::ErrorModel::MissingField(field),
        ),
{
    common::lemma_field_position(record.spec.fields@, field, record.spec.fields@.len() as int);
}

/// Dates and moments of a record are those that its values write.
pub proof fn dates_of_a_record_are_those_written(record: Record, field: Seq<char>)
    ensures
        record.value(field) matches Err(failure) ==> record.date(field) == Err::<
            time::Date,
            error::ErrorModel,
        >(failure) && record.date_time(field) == Err::<time::DateTime, error::ErrorModel>(failure),
        record.value(field) matches Ok(value) ==> {
            &&& record.date(field) matches Ok(date) ==> time_laws::writes_date(value, date)
                && time_laws::is_calendar_date(date)
            &&& forall|date: time::Date| #[trigger]
                time_laws::writes_date(value, date) && time_laws::is_calendar_date(date)
                    ==> record.date(field) == Ok::<time::Date, error::ErrorModel>(date)
            &&& record.date(field) matches Err(failure) ==> failure
                == error::ErrorModel::InvalidDate(value)
            &&& record.date_time(field) matches Ok(moment) ==> time::date_time_of(value) == Some(
                moment,
            )
            &&& record.date_time(field) matches Err(failure) ==> failure
                == error::ErrorModel::InvalidDateTime(value) && time::date_time_of(value) is None
        },
{
    if let Ok(value) = record.value(field) {
        assert forall|date: time::Date|
            time::date_of(value) == Some(date) <==> #[trigger] time_laws::writes_date(value, date)
                && time_laws::is_calendar_date(date) by {
            time_laws::dates_are_read_as_written(value, date);
        }
        if let Some(date) = time::date_of(value) {
            assert(time_laws::writes_date(value, date) && time_laws::is_calendar_date(date));
        }
    }
}

/// A number of a record is the number that its value writes when all commas are left out, and the
/// restriction decides whether it is admitted.
pub proof fn number_of_a_record_is_the_one_written(
    record: Record,
    field: Seq<char>,
    restrictions: DecimalRestrictions,
)
    ensures
        record.value(field) matches Err(failure) ==> record.number(field, restrictions) == Err::<
            Decimal,
            error::ErrorModel,
        >(failure),
        record.value(field) matches Ok(value) ==> {
            let bare = text::without(value, ',');
            &&& record.number(field, restrictions) matches Ok(number) ==> decimal::decimal_number(
                bare,
            ) == Some(number) && restrictions.admits(number)
            &&& decimal::decimal_number(bare) matches Some(number) ==> restrictions.admits(number)
                ==> record.number(field, restrictions) == Ok::<Decimal, error::ErrorModel>(number)
            &&& decimal::decimal_number(bare) matches Some(number) ==> !restrictions.admits(number)
                ==> record.number(field, restrictions) == Err::<Decimal, error::ErrorModel>(
                error::ErrorModel::ForbiddenDecimal(bare),
            )
            &&& decimal::decimal_number(bare) is None ==> record.number(field, restrictions) == Err::<
                Decimal,
                error::ErrorModel,
            >(error::ErrorModel::InvalidDecimal(bare))
        },
{
}

/// Whether a character is a capital letter.
pub open spec fn is_capital(c: char) -> bool {
    65 <= c as int <= 90
}

/// Whether a character is a capital letter or a digit.
pub open spec fn is_capital_or_digit(c: char) -> bool {
    is_capital(c) || 48 <= c as int <= 57
}

/// Whether a space or a point at the position stands between capital letters and digits and a class
/// of capital letters.
pub open spec fn has_class(s: Seq<char>, position: int) -> bool {
    &&& 0 < position < s.len() - 1
    &&& s[position] == ' ' || s[position] == '.'
    &&& forall|i: int| 0 <= i < position ==> is_capital_or_digit(#[trigger] s[i])
    &&& forall|i: int| position < i < s.len() ==> is_capital(#[trigger] s[i])
}

/// A symbol is read exactly if it is made of capital letters and digits, with a class of capital
/// letters behind a space or a point, or without one. The separator becomes a dash, and all else is
/// kept.
pub proof fn symbol_is_read_with_a_dash(s: Seq<char>)
    ensures
        common::parsed_symbol(s) is Ok <==> {
            ||| s.len() > 0 && forall|i: int|
                0 <= i < s.len() ==> is_capital_or_digit(#[trigger] s[i])
            ||| exists|position: int| #[trigger] has_class(s, position)
        },
        common::parsed_symbol(s) matches Ok(symbol) ==> {
            &&& symbol.len() == s.len()
            &&& forall|i: int|
                0 <= i < s.len() ==> #[trigger] symbol[i] == if s[i] == ' ' || s[i] == '.' {
                    '-'
                } else {
                    s[i]
                }
        },
        common::parsed_symbol(s) matches Err(failure) ==> failure
            == error::ErrorModel::UnsupportedSymbol(s),
{
    if common::is_symbol(s) {
        let stem = choose|stem: int| common::is_symbol_with_stem(s, stem);
        if stem < s.len() {
            assert forall|i: int| 0 <= i < stem implies is_capital_or_digit(#[trigger] s[i]) by {
                assert(common::is_stem_char(s[i]));
            }
            assert(has_class(s, stem));
        } else {
            assert forall|i: int| 0 <= i < s.len() implies is_capital_or_digit(#[trigger] s[i]) by {
                assert(common::is_stem_char(s[i]));
            }
        }
    }
    if exists|position: int| #[trigger] has_class(s, position) {
        let position = choose|position: int| #[trigger] has_class(s, position);
        assert forall|i: int| 0 <= i < position implies common::is_stem_char(#[trigger] s[i]) by {
            assert(is_capital_or_digit(s[i]));
        }
        assert forall|i: int| position < i < s.len() implies 'A' <= #[trigger] s[i] <= 'Z' by {
            assert(is_capital(s[i]));
        }
        assert(common::is_symbol_with_stem(s, position));
    } else if s.len() > 0 && forall|i: int|
        0 <= i < s.len() ==> is_capital_or_digit(#[trigger] s[i]) {
        assert forall|i: int| 0 <= i < s.len() implies common::is_stem_char(#[trigger] s[i]) by {
            assert(is_capital_or_digit(s[i]));
        }
        assert(common::is_symbol_with_stem(s, s.len() as int));
    }
}

proof fn lemma_leading(s: Seq<char>)
    ensures
        text::leading_digits(s) <= s.len(),
        text::all_digits(s.take(text::leading_digits(s) as int)),
        text::leading_digits(s) < s.len() ==> !text::is_digit(
            s[text::leading_digits(s) as int],
        ),
    decreases s.len(),
{
    if s.len() > 0 && text::is_digit(s[0]) {
        let rest = s.drop_first();
        lemma_leading(rest);
        let n = text::leading_digits(rest) as int;
        assert forall|i: int| 0 <= i < n + 1 implies text::is_digit(
            #[trigger] s.take(n + 1)[i],
        ) by {
            if i > 0 {
                assert(rest.take(n)[i - 1] == s[i]);
            }
        }
        if n < rest.len() {
            assert(rest[n] == s[n + 1]);
        }
    }
}

/// An integer is read digit by digit: one more digit makes it ten times as large and adds the
/// number of the digit, as long as it fits in 32 bits. A plus sign may stand in front.
pub proof fn integer_is_read_digit_by_digit(s: Seq<char>, c: char)
    requires
        48 <= c as int <= 57,
    ensures
        common::parsed_integer(seq![c]) == Ok::<u32, error::ErrorModel>((c as int - 48) as u32),
        common::parsed_integer(seq!['+', c]) == Ok::<u32, error::ErrorModel>(
            (c as int - 48) as u32,
        ),
        common::parsed_integer(s) matches Ok(n) ==> if 10 * n + (c as int - 48) <= u32::MAX {
            common::parsed_integer(s.push(c)) == Ok::<u32, error::ErrorModel>(
                (10 * n + (c as int - 48)) as u32,
            )
        } else {
            common::parsed_integer(s.push(c)) == Err::<u32, error::ErrorModel>(
                error::ErrorModel::InvalidInteger(IntegerError::TooLarge),
            )
        },
{
    lemma_one_digit(c);
    if let Ok(n) = common::parsed_integer(s) {
        let plus = s.len() > 0 && s[0] == '+';
        let body = if plus {
            s.drop_first()
        } else {
            s
        };
        let longer = body.push(c);
        lemma_leading(body);
        assert(body.take(body.len() as int) =~= body);
        assert(longer.take(longer.len() as int) =~= longer);
        assert forall|i: int| 0 <= i < longer.len() implies text::is_digit(#[trigger] longer[i]) by {
            if i < body.len() {
                assert(body[i] == longer[i]);
            }
        }
        text::lemma_leading_digits(longer, longer.len() as int);
        assert(longer.drop_last() =~= body);
        if plus {
            assert(s.push(c).drop_first() =~= longer);
        }
        assert(s.push(c)[0] == s[0]);
    }
}

proof fn lemma_one_digit(c: char)
    requires
        48 <= c as int <= 57,
    ensures
        common::parsed_integer(seq![c]) == Ok::<u32, error::ErrorModel>((c as int - 48) as u32),
        common::parsed_integer(seq!['+', c]) == Ok::<u32, error::ErrorModel>(
            (c as int - 48) as u32,
        ),
{
    let one = seq![c];
    assert(seq!['+', c].drop_first() =~= one);
    assert(one.take(1) =~= one);
    assert(text::all_digits(one));
    text::lemma_leading_digits(one, 1);
    assert(one.drop_last() =~= Seq::empty());
    assert(text::digits_value(one.drop_last()) == 0);
}

/// What is no digit makes an integer invalid, and what comes behind that does not matter. Nothing
/// is read of an empty text, and once a number is too large it stays so.
pub proof fn other_characters_make_an_integer_invalid(s: Seq<char>, c: char, d: char)
    ensures
        common::parsed_integer(Seq::empty()) == Err::<u32, error::ErrorModel>(
            error::ErrorModel::InvalidInteger(IntegerError::Empty),
        ),
        common::parsed_integer(s) is Ok && !(48 <= c as int <= 57) ==> common::parsed_integer(
            s.push(c),
        ) == Err::<u32, error::ErrorModel>(
            error::ErrorModel::InvalidInteger(IntegerError::InvalidDigit),
        ) && common::parsed_integer(s.push(c).push(d)) == common::parsed_integer(s.push(c)),
        !(48 <= c as int <= 57) ==> common::parsed_integer(seq![c]) == Err::<
            u32,
            error::ErrorModel,
        >(error::ErrorModel::InvalidInteger(IntegerError::InvalidDigit)),
        !(48 <= c as int <= 57) && c != '+' ==> common::parsed_integer(seq![c] + s) == Err::<
            u32,
            error::ErrorModel,
        >(error::ErrorModel::InvalidInteger(IntegerError::InvalidDigit)),
        common::parsed_integer(s) == Err::<u32, error::ErrorModel>(
            error::ErrorModel::InvalidInteger(IntegerError::TooLarge),
        ) ==> common::parsed_integer(s.push(c)) == common::parsed_integer(s),
{
    let plus = s.len() > 0 && s[0] == '+';
    let body = if plus {
        s.drop_first()
    } else {
        s
    };
    lemma_leading(body);
    let n = text::leading_digits(body) as int;
    if common::parsed_integer(s) is Ok && !(48 <= c as int <= 57) {
        let longer = body.push(c);
        let longest = longer.push(d);
        assert(longer.take(n) =~= body.take(n));
        assert(longest.take(n) =~= body.take(n));
        text::lemma_leading_digits(longer, n);
        text::lemma_leading_digits(longest, n);
        if plus {
            assert(s.push(c).drop_first() =~= longer);
            assert(s.push(c).push(d).drop_first() =~= longest);
        }
        assert(s.push(c)[0] == s[0]);
        assert(s.push(c).push(d)[0] == s[0]);
    }
    if !(48 <= c as int <= 57) {
        let one = seq![c];
        if c == '+' {
            assert(one.drop_first() =~= Seq::empty());
        } else {
            let all = seq![c] + s;
            assert(all[0] == c);
            assert(all.take(0) =~= Seq::empty());
        }
        assert(one.take(0) =~= Seq::empty());
    }
    if common::parsed_integer(s) == Err::<u32, error::ErrorModel>(
        error::ErrorModel::InvalidInteger(IntegerError::TooLarge),
    ) {
        let longer = body.push(c);
        let digits = body.take(n);
        assert(longer.take(n) =~= digits);
        text::lemma_leading_digits(longer, n);
        lemma_leading(longer);
        let m = text::leading_digits(longer) as int;
        assert(longer.take(m).take(n) =~= digits);
        text::lemma_digits_value_grows(longer.take(m), n);
        if plus {
            assert(s.push(c).drop_first() =~= longer);
        }
        assert(s.push(c)[0] == s[0]);
    }
}

/// The volume agrees with quantity and price exactly if it is off by no more than half of its last
/// decimal place, and the digits of quantity and price multiply to no more than 128 bits.
pub proof fn volume_is_off_by_half_a_place_at_most(
    quantity: Decimal,
    price: Decimal,
    volume: Decimal,
)
    ensures
        ({
            let exact = decimal_laws::units(quantity) * decimal_laws::units(price) * power::pow(
                10,
                volume.scale as nat,
            );
            let place = power::pow(10, (quantity.scale + price.scale) as nat);
            let given = decimal_laws::units(volume) * place;
            common::volume_is_expected(quantity, price, volume) <==> quantity.magnitude
                * price.magnitude <= u128::MAX && 2 * (given - exact) <= place && 2 * (exact
                - given) <= place
        }),
        volume.scale == quantity.scale + price.scale && quantity.magnitude * price.magnitude
            <= u128::MAX ==> (common::volume_is_expected(quantity, price, volume)
            <==> decimal_laws::units(volume) == decimal_laws::units(quantity) * decimal_laws::units(
            price,
        )),
{
    decimal_laws::ten_to_is_a_power((quantity.scale + price.scale) as nat);
    decimal_laws::ten_to_is_a_power(volume.scale as nat);
    if volume.scale == quantity.scale + price.scale {
        let v = decimal_laws::units(volume);
        let e = decimal_laws::units(quantity) * decimal_laws::units(price);
        let p = power::pow(10, volume.scale as nat);
        power::lemma_pow_positive(10, volume.scale as nat);
        assert(v * p - e * p == (v - e) * p) by (nonlinear_arith);
        let off = v - e;
        assert((-p <= 2 * (off * p) <= p) <==> off == 0) by (nonlinear_arith)
            requires
                p > 0,
        ;
    }
}

} // verus!

//! What holds of all decimal numbers.

use vstd::arithmetic::power;
use vstd::prelude::*;

use crate::currency::Cash;
use crate::decimal::{self, Decimal, DecimalRestrictions};
use crate::error;
use crate::text;
use crate::text_laws;

verus! {

/// The amount in units of its last decimal place.
pub open spec fn units(amount: Decimal) -> int {
    if amount.negative {
        -(amount.magnitude as int)
    } else {
        amount.magnitude as int
    }
}

/// `ten_to` is what its name says.
pub proof fn ten_to_is_a_power(n: nat)
    ensures
        decimal::ten_to(n) == power::pow(10, n),
    decreases n,
{
    reveal(power::pow);
    if n > 0 {
        ten_to_is_a_power((n - 1) as nat);
    }
}

/// The sign of a number and the digits decide what it counts for. The opposite of a number has the
/// other sign, and the same digits and decimal places.
pub proof fn opposite_has_the_other_sign(value: Decimal)
    ensures
        value.signed() == units(value),
        value.opposite().negative == !value.negative,
        value.opposite().magnitude == value.magnitude,
        value.opposite().scale == value.scale,
        value.opposite().signed() == -value.signed(),
        value.opposite().opposite() == value,
{
}

/// Each restriction admits the numbers that it names, and no others.
pub proof fn restrictions_admit_what_they_name(value: Decimal)
    ensures
        DecimalRestrictions::NonZero.admits(value) <==> value.magnitude != 0,
        DecimalRestrictions::PositiveOrZero.admits(value) <==> value.magnitude == 0
            || !value.negative,
        DecimalRestrictions::StrictlyPositive.admits(value) <==> value.magnitude != 0
            && !value.negative,
        DecimalRestrictions::StrictlyNegative.admits(value) <==> value.magnitude != 0
            && value.negative,
{
}

/// A restricted number is the number of its text where the restriction admits it, and nothing is
/// made of any other text.
pub proof fn restricted_number_is_the_number_of_its_text(
    s: Seq<char>,
    restrictions: DecimalRestrictions,
)
    ensures
        decimal::restricted_decimal(s, restrictions) matches Ok(value) ==> decimal::decimal_number(
            s,
        ) == Some(value) && restrictions.admits(value),
        decimal::decimal_number(s) matches Some(value) ==> if restrictions.admits(value) {
            decimal::restricted_decimal(s, restrictions) == Ok::<Decimal, error::ErrorModel>(value)
        } else {
            decimal::restricted_decimal(s, restrictions) == Err::<Decimal, error::ErrorModel>(
                error::ErrorModel::ForbiddenDecimal(s),
            )
        },
        decimal::decimal_number(s) is None ==> decimal::restricted_decimal(s, restrictions) == Err::<
            Decimal,
            error::ErrorModel,
        >(error::ErrorModel::InvalidDecimal(s)),
{
}

/// A text of digits, with a sign in front or none and a point among them or none, is read as the
/// number of its digits, with as many decimal places as there are digits behind the point. It is
/// negative exactly if the sign is a minus.
pub proof fn digits_with_a_point_are_read(
    sign: Seq<char>,
    whole: Seq<char>,
    pointed: bool,
    fraction: Seq<char>,
)
    requires
        sign.len() == 0 || sign == seq!['-'] || sign == seq!['+'],
        forall|i: int| 0 <= i < whole.len() ==> 48 <= #[trigger] whole[i] as int <= 57,
        forall|i: int| 0 <= i < fraction.len() ==> 48 <= #[trigger] fraction[i] as int <= 57,
        whole.len() + fraction.len() > 0,
        !pointed ==> fraction.len() == 0,
    ensures
        ({
            let s = sign + whole + (if pointed {
                seq!['.'] + fraction
            } else {
                Seq::empty()
            });
            let magnitude = text::digits_value(whole + fraction);
            if magnitude <= u128::MAX && fraction.len() <= u32::MAX {
                decimal::decimal_number(s) == Some(
                    Decimal {
                        negative: sign == seq!['-'],
                        magnitude: magnitude as u128,
                        scale: fraction.len() as u32,
                    },
                )
            } else {
                decimal::decimal_number(s) is None
            }
        }),
{
    let rest = if pointed {
        seq!['.'] + fraction
    } else {
        Seq::empty()
    };
    let body = whole + rest;
    let s = sign + whole + rest;
    assert(s =~= sign + body);
    assert(body.len() > 0);
    if sign.len() == 0 {
        assert(s =~= body);
        assert(body[0] == '.' || 48 <= body[0] as int <= 57);
        assert(body[0] != '-' && body[0] != '+');
        assert(!(sign == seq!['-'])) by {
            assert(seq!['-'].len() == 1);
        }
    } else {
        assert(s.drop_first() =~= body);
        if sign == seq!['+'] {
            assert(seq!['+'][0] != seq!['-'][0]);
        }
    }
    assert(decimal::unsigned_part(s) == body);
    decimal::lemma_point_position(body, whole.len() as int);
    assert(decimal::integer_part(body) =~= whole);
    assert(decimal::fraction_part(body) =~= fraction);
    let digits = whole + fraction;
    assert forall|i: int| 0 <= i < digits.len() implies text::is_digit(#[trigger] digits[i]) by {
        if i < whole.len() {
            assert(digits[i] == whole[i]);
        } else {
            assert(digits[i] == fraction[i - whole.len()]);
        }
    }
}

proof fn lemma_point_found(s: Seq<char>)
    ensures
        decimal::point_position(s) <= s.len(),
        decimal::point_position(s) < s.len() ==> s[decimal::point_position(s) as int] == '.',
        forall|i: int| 0 <= i < decimal::point_position(s) ==> s[i] != '.',
    decreases s.len(),
{
    if s.len() > 0 && s[0] != '.' {
        lemma_point_found(s.drop_first());
        let position = decimal::point_position(s.drop_first()) as int;
        assert forall|i: int| 0 <= i < position + 1 implies s[i] != '.' by {
            if i > 0 {
                assert(s.drop_first()[i - 1] == s[i]);
            }
        }
    }
}

/// No other text is read: a number has digits, at most one point among them, and at most one sign,
/// in front.
pub proof fn only_digits_with_a_point_are_read(s: Seq<char>)
    requires
        decimal::decimal_number(s) is Some,
    ensures
        exists|sign: Seq<char>, whole: Seq<char>, fraction: Seq<char>| #[trigger]
            is_made_of(s, sign, whole, fraction),
{
    let body = decimal::unsigned_part(s);
    let sign = if body.len() < s.len() {
        seq![s[0]]
    } else {
        Seq::empty()
    };
    let position = decimal::point_position(body) as int;
    let whole = body.take(position);
    let fraction = decimal::fraction_part(body);
    lemma_point_found(body);
    assert(s =~= sign + body);
    let digits = whole + fraction;
    assert forall|i: int| 0 <= i < whole.len() implies 48 <= #[trigger] whole[i] as int <= 57 by {
        assert(digits[i] == whole[i]);
        assert(text::is_digit(digits[i]));
    }
    assert forall|i: int| 0 <= i < fraction.len() implies 48 <= #[trigger] fraction[i] as int
        <= 57 by {
        assert(digits[i + whole.len()] == fraction[i]);
        assert(text::is_digit(digits[i + whole.len()]));
    }
    if position < body.len() {
        assert(s =~= sign + whole + seq!['.'] + fraction);
    } else {
        assert(s =~= sign + whole);
    }
    if sign.len() > 0 {
        assert(sign =~= seq!['-'] || sign =~= seq!['+']);
    }
    assert(is_made_of(s, sign, whole, fraction));
}

/// Whether a text is a sign or none, digits, and a point with further digits or nothing.
pub open spec fn is_made_of(
    s: Seq<char>,
    sign: Seq<char>,
    whole: Seq<char>,
    fraction: Seq<char>,
) -> bool {
    &&& sign.len() == 0 || sign == seq!['-'] || sign == seq!['+']
    &&& forall|i: int| 0 <= i < whole.len() ==> 48 <= #[trigger] whole[i] as int <= 57
    &&& forall|i: int| 0 <= i < fraction.len() ==> 48 <= #[trigger] fraction[i] as int <= 57
    &&& whole.len() + fraction.len() > 0
    &&& s == sign + whole + seq!['.'] + fraction || s == sign + whole && fraction.len() == 0
}

/// A number is written with a minus in front exactly if it is negative. Without decimal places it
/// is written as an integer. With them it has that many digits behind the point, and in front of the
/// point at least one digit, of which the first is a zero only if it is the only one.
pub proof fn number_is_written_with_its_decimal_places(value: Decimal)
    ensures
        ({
            let positive = Decimal { negative: false, ..value }.notation();
            let point = positive.len() - 1 - value.scale;
            &&& value.negative ==> value.notation() == seq!['-'] + positive
            &&& !value.negative ==> value.notation() == positive
            &&& value.scale == 0 ==> positive == text::number_digits(value.magnitude as nat)
            &&& value.scale > 0 ==> {
                &&& point > 0
                &&& positive[point] == '.'
                &&& positive[0] == '0' ==> point == 1
                &&& forall|i: int|
                    0 <= i < positive.len() && i != point ==> 48 <= #[trigger] positive[i] as int
                        <= 57
            }
        }),
{
    let positive = Decimal { negative: false, ..value }.notation();
    let digits = text::number_digits(value.magnitude as nat);
    text::number_digits_denote_the_number(value.magnitude as nat);
    text_laws::number_has_no_zeros_in_front(value.magnitude as nat);
    let point = positive.len() - 1 - value.scale;
    if value.scale > 0 {
        assert forall|i: int| 0 <= i < positive.len() && i != point implies 48
            <= #[trigger] positive[i] as int <= 57 by {
            if digits.len() > value.scale {
                let j = if i < point {
                    i
                } else {
                    i - 1
                };
                assert(positive[i] == digits[j]);
                assert(text::is_digit(digits[j]));
            } else if i >= 2 + value.scale - digits.len() {
                let j = i - (2 + value.scale - digits.len());
                assert(positive[i] == digits[j]);
                assert(text::is_digit(digits[j]));
            }
        }
        if digits.len() > value.scale {
            assert(positive[0] == digits[0]);
            if value.magnitude == 0 {
                assert(digits.len() == 1);
            }
        }
    }
}

/// Money is written as its amount, a space and its currency.
pub proof fn money_is_written_with_its_currency(cash: Cash)
    ensures
        cash.notation() == cash.amount.notation() + " "@ + cash.currency@,
        cash.opposite().currency == cash.currency,
        cash.opposite().amount == cash.amount.opposite(),
{
    reveal_strlit(" ");
    assert(" "@ =~= seq![' ']);
}

} // verus!

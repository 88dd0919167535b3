//! Decimal numbers.

use vstd::prelude::*;

use crate::error::{self, StatementError, ErrorModel};
use crate::text;

verus! {

/// A decimal number: `magnitude` with a point before its last `scale` digits, and a sign. Numbers
/// with different decimal places are different values, though they may stand for the same amount.
#[derive(Debug, Clone, Copy, PartialEq, Eq, Structural)]
pub struct Decimal {
    pub negative: bool,
    pub magnitude: u128,
    pub scale: u32,
}

/// What a decimal number that is read from a report may be.
#[derive(Debug, Clone, Copy, PartialEq, Eq, Structural)]
pub enum DecimalRestrictions {
    NonZero,
    PositiveOrZero,
    StrictlyPositive,
    StrictlyNegative,
}

/// A power of ten.
pub open spec fn ten_to(n: nat) -> nat
    decreases n,
{
    if n == 0 {
        1
    } else {
        10 * ten_to((n - 1) as nat)
    }
}

/// The digits with a point before the last `scale` of them, and at least one digit before the
/// point.
pub open spec fn with_point(digits: Seq<char>, scale: nat) -> Seq<char> {
    if scale == 0 {
        digits
    } else if digits.len() > scale {
        digits.take(digits.len() - scale).push('.') + digits.skip(digits.len() - scale)
    } else {
        seq!['0', '.'] + text::zeros((scale - digits.len()) as nat) + digits
    }
}

/// The position of the first point, or the length of a text that has none.
pub open spec fn point_position(s: Seq<char>) -> nat
    decreases s.len(),
{
    if s.len() == 0 || s[0] == '.' {
        0
    } else {
        1 + point_position(s.drop_first())
    }
}

/// The text in front of the first point.
pub open spec fn integer_part(s: Seq<char>) -> Seq<char> {
    s.take(point_position(s) as int)
}

/// The text behind the first point.
pub open spec fn fraction_part(s: Seq<char>) -> Seq<char> {
    if point_position(s) < s.len() {
        s.skip(point_position(s) as int + 1)
    } else {
        Seq::empty()
    }
}

/// The text without its sign, if it has one.
pub open spec fn unsigned_part(s: Seq<char>) -> Seq<char> {
    if s.len() > 0 && (s[0] == '-' || s[0] == '+') {
        s.drop_first()
    } else {
        s
    }
}

/// The number that a text denotes: an optional sign, and digits with at most one point among
/// them. There is none where the text has another form, or where the number has no place in
/// `Decimal`.
pub open spec fn decimal_number(s: Seq<char>) -> Option<Decimal> {
    let body = unsigned_part(s);
    let digits = integer_part(body) + fraction_part(body);
    let scale = fraction_part(body).len();
    match text::bounded_number(digits, u128::MAX as nat) {
        Some(magnitude) if scale <= u32::MAX => Some(
            Decimal {
                negative: s.len() > 0 && s[0] == '-',
                magnitude: magnitude as u128,
                scale: scale as u32,
            },
        ),
        _ => None,
    }
}

impl DecimalRestrictions {
    pub open spec fn admits(self, value: Decimal) -> bool {
        match self {
            DecimalRestrictions::NonZero => value.signed() != 0,
            DecimalRestrictions::PositiveOrZero => value.signed() >= 0,
            DecimalRestrictions::StrictlyPositive => value.signed() > 0,
            DecimalRestrictions::StrictlyNegative => value.signed() < 0,
        }
    }

    /// Whether the number may be such.
    pub fn check(self, value: Decimal) -> (r: bool)
        ensures
            r == self.admits(value),
    {
        match self {
            DecimalRestrictions::NonZero => !value.is_zero(),
            DecimalRestrictions::PositiveOrZero => value.is_zero() || !value.negative,
            DecimalRestrictions::StrictlyPositive => !value.is_zero() && !value.negative,
            DecimalRestrictions::StrictlyNegative => !value.is_zero() && value.negative,
        }
    }
}

impl Decimal {
    /// The number times ten to the power of its scale.
    pub open spec fn signed(self) -> int {
        if self.negative {
            -(self.magnitude as int)
        } else {
            self.magnitude as int
        }
    }

    /// The number with the other sign.
    pub open spec fn opposite(self) -> Decimal {
        Decimal { negative: !self.negative, magnitude: self.magnitude, scale: self.scale }
    }

    /// The number in decimal notation.
    pub open spec fn notation(self) -> Seq<char> {
        let unsigned = with_point(text::number_digits(self.magnitude as nat), self.scale as nat);
        if self.negative {
            seq!['-'] + unsigned
        } else {
            unsigned
        }
    }

    pub fn is_zero(self) -> (r: bool)
        ensures
            r == (self.signed() == 0),
    {
        self.magnitude == 0
    }

    /// Whether the number has no minus sign.
    pub fn is_sign_positive(self) -> (r: bool)
        ensures
            r == !self.negative,
    {
        !self.negative
    }

    /// The number with the other sign.
    pub fn negate(self) -> (r: Decimal)
        ensures
            r == self.opposite(),
            r.signed() == -self.signed(),
    {
        Decimal { negative: !self.negative, magnitude: self.magnitude, scale: self.scale }
    }

    /// Appends the number in decimal notation.
    pub fn push_to(self, out: &mut String)
        ensures
            final(out)@ == old(out)@ + self.notation(),
    {
        let ghost start = out@;
        if self.negative {
            out.push('-');
        }
        let ghost signed = out@;
        assert(signed =~= start + (if self.negative {
            seq!['-']
        } else {
            Seq::empty()
        }));
        let digits = text::digits_of(self.magnitude);
        let length: u64 = digits.len() as u64;
        let scale: u64 = self.scale as u64;
        let mut position: u64 = scale;
        if length <= scale {
            out.push('0');
            out.push('.');
            assert(out@ =~= signed + seq!['0', '.'] + text::zeros(0));
            while position > length
                invariant
                    length <= position <= scale,
                    out@ == signed + seq!['0', '.'] + text::zeros((scale - position) as nat),
                decreases position,
            {
                assert((signed + seq!['0', '.'] + text::zeros((scale - position) as nat)).push('0')
                    =~= signed + seq!['0', '.'] + text::zeros((scale - position + 1) as nat));
                out.push('0');
                position = position - 1;
            }
        }
        let ghost prefix = out@;
        let point: u64 = if length > scale {
            length - scale
        } else {
            0
        };
        let mut i: usize = 0;
        assert(prefix + with_point_inside(digits@, point as nat, 0) =~= prefix);
        while i < digits.len()
            invariant
                i <= digits@.len(),
                digits@.len() == length,
                point <= length,
                out@ == prefix + with_point_inside(digits@, point as nat, i as nat),
            decreases digits.len() - i,
        {
            if i as u64 == point && i > 0 {
                out.push('.');
            }
            out.push(digits[i]);
            assert(out@ =~= prefix + with_point_inside(digits@, point as nat, (i + 1) as nat));
            i = i + 1;
        }
        assert(out@ =~= start + self.notation());
    }
}

/// The first `count` digits, with a point before the digit at the position `point`.
spec fn with_point_inside(digits: Seq<char>, point: nat, count: nat) -> Seq<char> {
    if 0 < point < count {
        digits.take(point as int).push('.') + digits.subrange(point as int, count as int)
    } else {
        digits.take(count as int)
    }
}

/// A point with no other one in front of it is the first.
pub proof fn lemma_point_position(s: Seq<char>, position: int)
    requires
        0 <= position <= s.len(),
        forall|i: int| 0 <= i < position ==> s[i] != '.',
        position < s.len() ==> s[position] == '.',
    ensures
        point_position(s) == position,
    decreases s.len(),
{
    if position > 0 {
        assert forall|i: int| 0 <= i < position - 1 implies s.drop_first()[i] != '.' by {
            assert(s.drop_first()[i] == s[i + 1]);
        }
        lemma_point_position(s.drop_first(), position - 1);
    }
}

/// Reads a number in decimal notation.
fn read_decimal(string: &str) -> (r: Option<Decimal>)
    ensures
        r == decimal_number(string@),
{
    let chars = text::to_chars(string);
    let negative: bool = chars.len() > 0 && chars[0] == '-';
    let start: usize = if chars.len() > 0 && (chars[0] == '-' || chars[0] == '+') {
        1
    } else {
        0
    };
    let ghost body = unsigned_part(string@);
    assert(body =~= chars@.skip(start as int));
    let mut point: usize = start;
    while point < chars.len() && chars[point] != '.'
        invariant
            start <= point <= chars@.len(),
            body == chars@.skip(start as int),
            forall|i: int| 0 <= i < point - start ==> body[i] != '.',
        decreases chars.len() - point,
    {
        point = point + 1;
    }
    proof {
        lemma_point_position(body, point - start);
    }
    let mut digits: Vec<char> = Vec::new();
    let mut i: usize = start;
    while i < point
        invariant
            start <= i <= point <= chars@.len(),
            digits@ == chars@.subrange(start as int, i as int),
        decreases point - i,
    {
        digits.push(chars[i]);
        i = i + 1;
        assert(digits@ =~= chars@.subrange(start as int, i as int));
    }
    assert(digits@ =~= integer_part(body));
    let mut scale: usize = 0;
    if point < chars.len() {
        let ghost integer = digits@;
        i = point + 1;
        while i < chars.len()
            invariant
                point < i <= chars@.len(),
                digits@ == integer + chars@.subrange(point + 1, i as int),
            decreases chars.len() - i,
        {
            digits.push(chars[i]);
            i = i + 1;
            assert(digits@ =~= integer + chars@.subrange(point + 1, i as int));
        }
        assert(chars@.subrange(point + 1, i as int) =~= fraction_part(body));
        scale = chars.len() - point - 1;
    } else {
        assert(digits@ =~= digits@ + fraction_part(body));
    }
    assert(digits@ == integer_part(body) + fraction_part(body));
    assert(scale == fraction_part(body).len());
    assert(digits@.subrange(0, digits@.len() as int) =~= digits@);
    match text::number_between(&digits, 0, digits.len(), u128::MAX) {
        Some(magnitude) if scale as u64 <= u32::MAX as u64 => {
            Some(Decimal { negative, magnitude, scale: scale as u32 })
        },
        _ => None,
    }
}

/// What reading a number under restrictions comes to.
pub open spec fn restricted_decimal(s: Seq<char>, restrictions: DecimalRestrictions) -> Result<
    Decimal,
    ErrorModel,
> {
    match decimal_number(s) {
        Some(value) if restrictions.admits(value) => Ok(value),
        Some(_) => Err(ErrorModel::ForbiddenDecimal(s)),
        None => Err(ErrorModel::InvalidDecimal(s)),
    }
}

/// Reads a number in decimal notation under restrictions.
pub fn parse_decimal(string: &str, restrictions: DecimalRestrictions) -> (r: Result<
    Decimal,
    StatementError,
>)
    ensures
        error::outcome(r) == restricted_decimal(string@, restrictions),
{
    match read_decimal(string) {
        Some(value) => {
            if restrictions.check(value) {
                Ok(value)
            } else {
                Err(StatementError::ForbiddenDecimal(string.to_owned()))
            }
        },
        None => Err(StatementError::InvalidDecimal(string.to_owned())),
    }
}

proof fn lemma_with_point(digits: Seq<char>, scale: nat)
    requires
        digits.len() > 0,
        text::all_digits(digits),
    ensures
        with_point(digits, scale).len() > 0,
        text::is_digit(with_point(digits, scale)[0]),
        integer_part(with_point(digits, scale)).len() > 0,
        fraction_part(with_point(digits, scale)).len() == scale,
        text::all_digits(
            integer_part(with_point(digits, scale)) + fraction_part(with_point(digits, scale)),
        ),
        text::digits_value(
            integer_part(with_point(digits, scale)) + fraction_part(with_point(digits, scale)),
        ) == text::digits_value(digits),
{
    let s = with_point(digits, scale);
    if scale == 0 {
        lemma_point_position(s, s.len() as int);
        assert(integer_part(s) + fraction_part(s) =~= digits);
    } else if digits.len() > scale {
        lemma_point_position(s, digits.len() - scale);
        assert(integer_part(s) =~= digits.take(digits.len() - scale));
        assert(fraction_part(s) =~= digits.skip(digits.len() - scale));
        assert(integer_part(s) + fraction_part(s) =~= digits);
    } else {
        let count = (scale - digits.len()) as nat;
        lemma_point_position(s, 1);
        assert(fraction_part(s) =~= text::zeros(count) + digits);
        assert(integer_part(s) + fraction_part(s) =~= text::zeros(count + 1) + digits);
        text::zeros_in_front_do_not_count(count + 1, digits);
    }
}

/// A number reads back from its notation as it was written, with its sign and its decimal places.
pub proof fn notation_reads_back(value: Decimal)
    ensures
        decimal_number(value.notation()) == Some(value),
{
    let digits = text::number_digits(value.magnitude as nat);
    let unsigned = with_point(digits, value.scale as nat);
    text::number_digits_denote_the_number(value.magnitude as nat);
    lemma_with_point(digits, value.scale as nat);
    if value.negative {
        assert(value.notation().drop_first() =~= unsigned);
    }
    assert(unsigned_part(value.notation()) == unsigned);
}

} // verus!

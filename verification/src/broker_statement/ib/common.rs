//! What the sections of a report have in common.

use vstd::prelude::*;

use crate::decimal::{self, Decimal, DecimalRestrictions};
use crate::error::{self, IntegerError, StatementError};
use crate::text;
use crate::time::{self, Date, DateTime};

verus! {

/// A regular expression for stock symbols.
pub const STOCK_SYMBOL_REGEX: &'static str = "[A-Z0-9]+(?:[ .][A-Z]+)??";

/// A regular expression for security identifiers.
pub const SECURITY_ID_REGEX: &'static str = "[A-Z0-9]+";

/// What the symbol of a replaced security ends with.
pub const OLD_SYMBOL_SUFFIX: &'static str = ".OLD";

/// The names of the fields of a section's records. The values of a record start at the offset.
pub struct RecordSpec {
    pub name: String,
    pub fields: Vec<String>,
    pub offset: usize,
}

/// A record of a section.
pub struct Record<'a> {
    pub spec: &'a RecordSpec,
    pub values: &'a Vec<String>,
}

/// The first position at which a name stands.
pub open spec fn field_position(fields: Seq<String>, field: Seq<char>) -> Option<nat>
    decreases fields.len(),
{
    if fields.len() == 0 {
        None
    } else if fields[0]@ == field {
        Some(0)
    } else {
        match field_position(fields.drop_first(), field) {
            Some(position) => Some(position + 1),
            None => None,
        }
    }
}

/// A name with no equal one in front of it is found at its position.
pub proof fn lemma_field_position(fields: Seq<String>, field: Seq<char>, position: int)
    requires
        0 <= position <= fields.len(),
        forall|i: int| 0 <= i < position ==> fields[i]@ != field,
        position < fields.len() ==> fields[position]@ == field,
    ensures
        field_position(fields, field) == if position < fields.len() {
            Some(position as nat)
        } else {
            None
        },
    decreases fields.len(),
{
    if position > 0 {
        assert forall|i: int| 0 <= i < position - 1 implies fields.drop_first()[i]@ != field by {
            assert(fields.drop_first()[i] == fields[i + 1]);
        }
        lemma_field_position(fields.drop_first(), field, position - 1);
    }
}

impl RecordSpec {
    pub fn new(name: String, fields: Vec<String>, offset: usize) -> (r: RecordSpec)
        ensures
            r == (RecordSpec { name, fields, offset }),
    {
        RecordSpec { name, fields, offset }
    }

    /// The first position at which a name stands.
    pub fn field_index(&self, field: &str) -> (r: Option<usize>)
        ensures
            r is Some <==> field_position(self.fields@, field@) is Some,
            r matches Some(position) ==> field_position(self.fields@, field@) == Some(
                position as nat,
            ),
    {
        let mut i: usize = 0;
        while i < self.fields.len()
            invariant
                i <= self.fields@.len(),
                forall|j: int| 0 <= j < i ==> self.fields@[j]@ != field@,
            decreases self.fields.len() - i,
        {
            if text::same_text(self.fields[i].as_str(), field) {
                proof {
                    lemma_field_position(self.fields@, field@, i as int);
                }
                return Some(i);
            }
            i = i + 1;
        }
        proof {
            lemma_field_position(self.fields@, field@, i as int);
        }
        None
    }
}

impl<'a> Record<'a> {
    /// The value of a field.
    pub open spec fn value(self, field: Seq<char>) -> Result<Seq<char>, error::ErrorModel> {
        match field_position(self.spec.fields@, field) {
            Some(position) if self.spec.offset + position < self.values@.len() => Ok(
                self.values@[self.spec.offset + position]@,
            ),
            _ => Err(error::ErrorModel::MissingField(field)),
        }
    }

    /// The value of a field as a date.
    pub open spec fn date(self, field: Seq<char>) -> Result<Date, error::ErrorModel> {
        match self.value(field) {
            Ok(value) => time::parsed_date(value),
            Err(error) => Err(error),
        }
    }

    /// The value of a field as a date with a time.
    pub open spec fn date_time(self, field: Seq<char>) -> Result<DateTime, error::ErrorModel> {
        match self.value(field) {
            Ok(value) => time::parsed_date_time(value),
            Err(error) => Err(error),
        }
    }

    /// The value of a field as a number, with commas between groups of digits left out.
    pub open spec fn number(self, field: Seq<char>, restrictions: DecimalRestrictions) -> Result<
        Decimal,
        error::ErrorModel,
    > {
        match self.value(field) {
            Ok(value) => decimal::restricted_decimal(text::without(value, ','), restrictions),
            Err(error) => Err(error),
        }
    }

    pub fn new(spec: &'a RecordSpec, values: &'a Vec<String>) -> (r: Record<'a>)
        ensures
            r == (Record { spec, values }),
    {
        Record { spec, values }
    }

    /// The value of a field.
    pub fn get_value(&self, field: &str) -> (r: Result<&'a str, StatementError>)
        ensures
            r matches Ok(value) ==> self.value(field@) == Ok::<Seq<char>, error::ErrorModel>(
                value@,
            ),
            r matches Err(error) ==> self.value(field@) == Err::<Seq<char>, error::ErrorModel>(
                error@,
            ),
    {
        if let Some(position) = self.spec.field_index(field) {
            let offset: usize = self.spec.offset;
            if offset < self.values.len() && position < self.values.len() - offset {
                return Ok(self.values[offset + position].as_str());
            }
        }
        Err(StatementError::MissingField(field.to_owned()))
    }

    /// The value of a field as a date.
    pub fn parse_date(&self, field: &str) -> (r: Result<Date, StatementError>)
        ensures
            error::outcome(r) == self.date(field@),
    {
        match self.get_value(field) {
            Ok(value) => time::parse_date(value),
            Err(error) => Err(error),
        }
    }

    /// The value of a field as a date with a time.
    pub fn parse_date_time(&self, field: &str) -> (r: Result<DateTime, StatementError>)
        ensures
            error::outcome(r) == self.date_time(field@),
    {
        match self.get_value(field) {
            Ok(value) => time::parse_date_time(value),
            Err(error) => Err(error),
        }
    }

    /// The value of a field as an amount of money.
    pub fn parse_amount(&self, field: &str, restrictions: DecimalRestrictions) -> (r: Result<
        Decimal,
        StatementError,
    >)
        ensures
            error::outcome(r) == self.number(field@, restrictions),
    {
        match self.get_value(field) {
            Ok(value) => decimal::parse_decimal(
                text::remove_char(value, ',').as_str(),
                restrictions,
            ),
            Err(error) => Err(error),
        }
    }

    /// The value of a field as a number of shares.
    pub fn parse_quantity(&self, field: &str, restrictions: DecimalRestrictions) -> (r: Result<
        Decimal,
        StatementError,
    >)
        ensures
            error::outcome(r) == self.number(field@, restrictions),
    {
        self.parse_amount(field, restrictions)
    }
}

pub open spec fn is_stem_char(c: char) -> bool {
    'A' <= c <= 'Z' || '0' <= c <= '9'
}

/// A stem of capital letters and digits up to the position `stem`, and then possibly a separator
/// and a class of capital letters.
pub open spec fn is_symbol_with_stem(s: Seq<char>, stem: int) -> bool {
    &&& 0 < stem <= s.len()
    &&& forall|i: int| 0 <= i < stem ==> is_stem_char(#[trigger] s[i])
    &&& stem < s.len() ==> {
        &&& s[stem] == ' ' || s[stem] == '.'
        &&& stem + 1 < s.len()
        &&& forall|i: int| stem < i < s.len() ==> 'A' <= #[trigger] s[i] <= 'Z'
    }
}

/// A stock symbol as reports write it.
pub open spec fn is_symbol(s: Seq<char>) -> bool {
    exists|stem: int| is_symbol_with_stem(s, stem)
}

/// A stock symbol with a dash in place of its separator.
pub open spec fn dashed(s: Seq<char>) -> Seq<char> {
    Seq::new(
        s.len(),
        |i: int|
            if s[i] == ' ' || s[i] == '.' {
                '-'
            } else {
                s[i]
            },
    )
}

/// What reading a stock symbol comes to.
pub open spec fn parsed_symbol(s: Seq<char>) -> Result<Seq<char>, error::ErrorModel> {
    if is_symbol(s) {
        Ok(dashed(s))
    } else {
        Err(error::ErrorModel::UnsupportedSymbol(s))
    }
}

/// Reads a stock symbol.
pub fn parse_symbol(symbol: &str) -> (r: Result<String, StatementError>)
    ensures
        error::outcome_view(r) == parsed_symbol(symbol@),
{
    let chars = text::to_chars(symbol);
    let mut stem: usize = 0;
    while stem < chars.len() && ('A' <= chars[stem] && chars[stem] <= 'Z' || '0' <= chars[stem]
        && chars[stem] <= '9')
        invariant
            stem <= chars@.len(),
            forall|i: int| 0 <= i < stem ==> is_stem_char(#[trigger] chars@[i]),
        decreases chars.len() - stem,
    {
        stem = stem + 1;
    }
    proof {
        if is_symbol(symbol@) {
            let other = choose|other: int| is_symbol_with_stem(symbol@, other);
            assert(other == stem) by {
                if other < stem {
                    assert(is_stem_char(chars@[other]));
                } else if other > stem {
                    assert(is_stem_char(symbol@[stem as int]));
                }
            }
        }
    }
    let mut valid: bool = stem > 0;
    if stem < chars.len() {
        valid = valid && (chars[stem] == ' ' || chars[stem] == '.') && chars.len() - stem > 1;
        let ghost separated = valid;
        let mut i: usize = stem + 1;
        while i < chars.len()
            invariant
                stem < i <= chars@.len(),
                valid == (separated && forall|j: int|
                    stem < j < i ==> 'A' <= #[trigger] chars@[j] <= 'Z'),
            decreases chars.len() - i,
        {
            valid = valid && 'A' <= chars[i] && chars[i] <= 'Z';
            i = i + 1;
        }
    }
    assert(valid == is_symbol_with_stem(symbol@, stem as int));
    if !valid {
        return Err(StatementError::UnsupportedSymbol(symbol.to_owned()));
    }
    let mut r = String::new();
    for i in 0..chars.len()
        invariant
            r@ == dashed(chars@).take(i as int),
    {
        let c: char = if chars[i] == ' ' || chars[i] == '.' {
            '-'
        } else {
            chars[i]
        };
        r.push(c);
        assert(r@ =~= dashed(chars@).take(i + 1));
    }
    assert(r@ =~= dashed(symbol@));
    Ok(r)
}

/// The number that digits with an optional plus sign denote. A number that is too large is found
/// before a wrong character behind it.
pub open spec fn parsed_integer(s: Seq<char>) -> Result<u32, error::ErrorModel> {
    let body = if s.len() > 0 && s[0] == '+' {
        s.drop_first()
    } else {
        s
    };
    let digits = body.take(text::leading_digits(body) as int);
    if s.len() == 0 {
        Err(error::ErrorModel::InvalidInteger(IntegerError::Empty))
    } else if text::digits_value(digits) > u32::MAX {
        Err(error::ErrorModel::InvalidInteger(IntegerError::TooLarge))
    } else if digits.len() == 0 || digits.len() < body.len() {
        Err(error::ErrorModel::InvalidInteger(IntegerError::InvalidDigit))
    } else {
        Ok(text::digits_value(digits) as u32)
    }
}

/// Reads an integer.
pub fn parse_integer(string: &str) -> (r: Result<u32, StatementError>)
    ensures
        error::outcome(r) == parsed_integer(string@),
{
    let chars = text::to_chars(string);
    if chars.len() == 0 {
        return Err(StatementError::InvalidInteger(IntegerError::Empty));
    }
    let start: usize = if chars[0] == '+' {
        1
    } else {
        0
    };
    let ghost body = chars@.skip(start as int);
    assert(chars@.skip(1) =~= chars@.drop_first());
    assert(chars@.skip(0) =~= chars@);
    let mut value: u32 = 0;
    let mut i: usize = start;
    assert(body.take(0) =~= Seq::empty());
    while i < chars.len()
        invariant
            start <= i <= chars@.len(),
            chars@ == string@,
            chars@.len() > 0,
            body == chars@.skip(start as int),
            body == if string@[0] == '+' {
                string@.drop_first()
            } else {
                string@
            },
            text::all_digits(body.take(i - start)),
            value == text::digits_value(body.take(i - start)),
        decreases chars.len() - i,
    {
        let c: char = chars[i];
        let ghost k = i - start;
        assert(body[k] == c);
        if c < '0' || c > '9' {
            proof {
                text::lemma_leading_digits(body, k);
            }
            return Err(StatementError::InvalidInteger(IntegerError::InvalidDigit));
        }
        let digit: u32 = c as u32 - '0' as u32;
        proof {
            assert(body.take(k + 1).drop_last() =~= body.take(k));
            assert(body.take(k + 1).last() == c);
            assert forall|j: int| 0 <= j < k + 1 implies text::is_digit(
                #[trigger] body.take(k + 1)[j],
            ) by {
                if j < k {
                    assert(body.take(k)[j] == body[j]);
                }
            }
            text::lemma_leading_digits(body, k + 1);
            let digits = body.take(text::leading_digits(body) as int);
            assert(digits.take(k + 1) =~= body.take(k + 1));
            text::lemma_digits_value_grows(digits, k + 1);
        }
        value = match value.checked_mul(10) {
            Some(shifted) => match shifted.checked_add(digit) {
                Some(next) => next,
                None => {
                    return Err(StatementError::InvalidInteger(IntegerError::TooLarge));
                },
            },
            None => {
                return Err(StatementError::InvalidInteger(IntegerError::TooLarge));
            },
        };
        i = i + 1;
    }
    proof {
        text::lemma_leading_digits(body, body.len() as int);
    }
    if start == chars.len() {
        return Err(StatementError::InvalidInteger(IntegerError::InvalidDigit));
    }
    Ok(value)
}

/// Whether the volume, as far as its decimal places go, is the price times the quantity: it is off
/// by no more than half of its last decimal place.
pub open spec fn volume_agrees(quantity: Decimal, price: Decimal, volume: Decimal) -> bool {
    let unit = decimal::ten_to((quantity.scale + price.scale) as nat);
    let product = quantity.signed() * price.signed();
    let error = volume.signed() * unit - product * decimal::ten_to(volume.scale as nat);
    -unit <= 2 * error <= unit
}

/// Whether the volume agrees with the price times the quantity, and the digits of the latter are
/// a number that fits in a machine word.
pub open spec fn volume_is_expected(quantity: Decimal, price: Decimal, volume: Decimal) -> bool {
    quantity.magnitude * price.magnitude <= u128::MAX && volume_agrees(quantity, price, volume)
}

proof fn lemma_ten_to_sum(a: nat, b: nat)
    ensures
        decimal::ten_to(a + b) == decimal::ten_to(a) * decimal::ten_to(b),
        decimal::ten_to(a) > 0,
    decreases a,
{
    if a > 0 {
        lemma_ten_to_sum((a - 1) as nat, b);
        let x = decimal::ten_to((a - 1) as nat);
        let y = decimal::ten_to(b);
        assert((10 * x) * y == 10 * (x * y)) by (nonlinear_arith);
        assert((a + b - 1) as nat == (a - 1) as nat + b);
        assert(decimal::ten_to(a + b) == 10 * decimal::ten_to((a + b - 1) as nat));
    } else {
        assert(1 * decimal::ten_to(b) == decimal::ten_to(b));
    }
}

/// A power of ten that does not fit in 128 bits is more than twice the largest number that does.
proof fn lemma_large_power(n: nat)
    requires
        decimal::ten_to(n) > u128::MAX,
    ensures
        decimal::ten_to(n) > 2 * u128::MAX,
{
    reveal_with_fuel(decimal::ten_to, 40);
    if n >= 39 {
        lemma_ten_to_sum(39, (n - 39) as nat);
        lemma_ten_to_sum((n - 39) as nat, 0);
        let rest = decimal::ten_to((n - 39) as nat);
        assert(decimal::ten_to(39) * rest >= decimal::ten_to(39)) by (nonlinear_arith)
            requires
                rest >= 1,
        ;
    }
}

/// The power of ten, where it fits in 128 bits.
fn power_of_ten(n: u64) -> (r: Option<u128>)
    ensures
        r matches Some(power) ==> power == decimal::ten_to(n as nat),
        r is None ==> decimal::ten_to(n as nat) > u128::MAX,
{
    let mut power: u128 = 1;
    let mut i: u64 = 0;
    while i < n
        invariant
            i <= n,
            power == decimal::ten_to(i as nat),
        decreases n - i,
    {
        match power.checked_mul(10) {
            Some(next) => {
                power = next;
            },
            None => {
                proof {
                    lemma_ten_to_sum((i + 1) as nat, (n - i - 1) as nat);
                    lemma_ten_to_sum((n - i - 1) as nat, 0);
                    let x = decimal::ten_to((i + 1) as nat);
                    let y = decimal::ten_to((n - i - 1) as nat);
                    assert(x * y >= x) by (nonlinear_arith)
                        requires
                            y >= 1,
                    ;
                }
                return None;
            },
        }
        i = i + 1;
    }
    Some(power)
}

/// The comparison where the product has at least the decimal places of the volume.
proof fn lemma_agrees_down(volume: int, product: int, common: int, step: int)
    by (nonlinear_arith)
    requires
        common > 0,
        step > 0,
    ensures
        (-(common * step) <= 2 * (volume * (common * step) - product * common) <= common * step)
            <==> (-step <= 2 * (volume * step - product) <= step),
{
}

/// The comparison where the volume has more decimal places than the product.
proof fn lemma_agrees_up(volume: int, product: int, common: int, step: int)
    by (nonlinear_arith)
    requires
        common > 0,
        step > 0,
    ensures
        (-common <= 2 * (volume * common - product * (common * step)) <= common) <==> (volume
            == product * step),
{
}

proof fn lemma_quotient(volume: int, product: int, step: int)
    requires
        step > 0,
        product >= 0,
    ensures
        (-step <= 2 * (volume * step - product) <= step) <==> ({
            ||| volume == product / step && 2 * (product % step) <= step
            ||| volume == product / step + 1 && 2 * (product % step) >= step
        }),
{
    let quotient = product / step;
    let rest = product % step;
    vstd::arithmetic::div_mod::lemma_fundamental_div_mod(product, step);
    vstd::arithmetic::div_mod::lemma_mod_bound(product, step);
    assert(volume * step - product == (volume - quotient) * step - rest) by (nonlinear_arith)
        requires
            product == step * quotient + rest,
    ;
    let off = volume - quotient;
    if off > 1 {
        assert(off * step >= 2 * step) by (nonlinear_arith)
            requires
                off >= 2,
                step > 0,
        ;
    } else if off < 0 {
        assert(off * step <= -step) by (nonlinear_arith)
            requires
                off <= -1,
                step > 0,
        ;
    } else {
        assert(0 * step == 0 && 1 * step == step);
    }
}

/// Whether a number of `volume` units is `product` divided by ten to the power of `step`, rounded
/// to the nearest.
fn is_rounded(volume: u128, product: u128, step: u64) -> (r: bool)
    ensures
        r == ({
            let unit = decimal::ten_to(step as nat) as int;
            -unit <= 2 * (volume * unit - product) <= unit
        }),
{
    proof {
        lemma_ten_to_sum(step as nat, 0);
    }
    match power_of_ten(step) {
        Some(unit) => {
            proof {
                lemma_quotient(volume as int, product as int, unit as int);
            }
            let quotient: u128 = product / unit;
            let rest: u128 = product % unit;
            // `rest` is at most a half where the other part of the unit is not less.
            volume == quotient && rest <= unit - rest || volume > quotient && volume - quotient == 1
                && rest >= unit - rest
        },
        None => {
            proof {
                lemma_large_power(step as nat);
                let unit = decimal::ten_to(step as nat) as int;
                if volume > 0 {
                    assert(volume * unit >= unit) by (nonlinear_arith)
                        requires
                            volume >= 1,
                            unit > 0,
                    ;
                } else {
                    assert(0 * unit == 0);
                }
            }
            volume == 0
        },
    }
}

/// Whether a number of `volume` units is `product` times ten to the power of `step`.
fn is_multiple(volume: u128, product: u128, step: u64) -> (r: bool)
    ensures
        r == (volume == product * decimal::ten_to(step as nat)),
{
    proof {
        lemma_ten_to_sum(step as nat, 0);
        let unit = decimal::ten_to(step as nat) as int;
        if product > 0 {
            assert(product * unit >= unit) by (nonlinear_arith)
                requires
                    product >= 1,
                    unit > 0,
            ;
        } else {
            assert(0 * unit == 0);
        }
    }
    match power_of_ten(step) {
        Some(unit) => match product.checked_mul(unit) {
            Some(expected) => volume == expected,
            None => false,
        },
        None => volume == 0 && product == 0,
    }
}

/// Checks that the volume is the price times the quantity.
pub fn check_volume(quantity: Decimal, price: Decimal, volume: Decimal) -> (r: Result<
    (),
    StatementError,
>)
    ensures
        r is Ok <==> volume_is_expected(quantity, price, volume),
        r matches Err(error) ==> error@ == (error::ErrorModel::UnexpectedVolume {
            quantity,
            price,
            volume,
        }),
{
    let failure = Err(StatementError::UnexpectedVolume { quantity, price, volume });
    let product: u128 = match quantity.magnitude.checked_mul(price.magnitude) {
        Some(product) => product,
        None => {
            return failure;
        },
    };
    let negative: bool = quantity.negative != price.negative;
    let scale: u64 = quantity.scale as u64 + price.scale as u64;
    let volume_scale: u64 = volume.scale as u64;
    // Numbers of different signs never agree.
    let comparable: bool = negative == volume.negative || volume.magnitude == 0 || product == 0;
    let ghost signed_product = quantity.signed() * price.signed();
    let ghost sign: int = if negative {
        -1
    } else {
        1
    };
    let ghost volume_sign: int = if volume.negative {
        -1
    } else {
        1
    };
    proof {
        lemma_signed_product(quantity, price);
    }
    let agrees: bool;
    if scale >= volume_scale {
        let step: u64 = scale - volume_scale;
        proof {
            lemma_ten_to_sum(volume_scale as nat, step as nat);
            lemma_ten_to_sum(step as nat, 0);
            let unit = decimal::ten_to(step as nat) as int;
            lemma_agrees_down(
                volume.signed(),
                signed_product,
                decimal::ten_to(volume_scale as nat) as int,
                unit,
            );
            lemma_signs(volume.magnitude as int, product as int, unit, volume_sign, sign);
        }
        agrees = comparable && is_rounded(volume.magnitude, product, step);
    } else {
        let step: u64 = volume_scale - scale;
        proof {
            lemma_ten_to_sum(scale as nat, step as nat);
            lemma_ten_to_sum(step as nat, 0);
            let unit = decimal::ten_to(step as nat) as int;
            lemma_agrees_up(
                volume.signed(),
                signed_product,
                decimal::ten_to(scale as nat) as int,
                unit,
            );
            lemma_multiple_signs(volume.magnitude as int, product as int, unit, volume_sign, sign);
        }
        agrees = comparable && is_multiple(volume.magnitude, product, step);
    }
    if agrees {
        Ok(())
    } else {
        failure
    }
}

proof fn lemma_signed_product(a: Decimal, b: Decimal)
    ensures
        a.signed() * b.signed() == if a.negative != b.negative {
            -(a.magnitude * b.magnitude)
        } else {
            a.magnitude * b.magnitude
        },
{
    let x = a.magnitude as int;
    let y = b.magnitude as int;
    assert((-x) * y == -(x * y) && x * (-y) == -(x * y) && (-x) * (-y) == x * y)
        by (nonlinear_arith);
}

proof fn lemma_signs(volume: int, product: int, unit: int, volume_sign: int, sign: int)
    requires
        volume >= 0,
        product >= 0,
        unit > 0,
        volume_sign == 1 || volume_sign == -1,
        sign == 1 || sign == -1,
    ensures
        (-unit <= 2 * ((volume_sign * volume) * unit - sign * product) <= unit) <==> ((volume_sign
            == sign || volume == 0 || product == 0) && -unit <= 2 * (volume * unit - product)
            <= unit),
{
    assert((-volume) * unit == -(volume * unit)) by (nonlinear_arith);
    if volume > 0 {
        assert(volume * unit >= unit) by (nonlinear_arith)
            requires
                volume >= 1,
                unit > 0,
        ;
    } else {
        assert(0 * unit == 0);
    }
}

proof fn lemma_multiple_signs(volume: int, product: int, unit: int, volume_sign: int, sign: int)
    requires
        volume >= 0,
        product >= 0,
        unit > 0,
        volume_sign == 1 || volume_sign == -1,
        sign == 1 || sign == -1,
    ensures
        (volume_sign * volume == (sign * product) * unit) <==> ((volume_sign == sign || volume == 0
            || product == 0) && volume == product * unit),
{
    assert((-product) * unit == -(product * unit)) by (nonlinear_arith);
    if product > 0 {
        assert(product * unit >= unit) by (nonlinear_arith)
            requires
                product >= 1,
                unit > 0,
        ;
    } else {
        assert(0 * unit == 0);
    }
}

} // verus!

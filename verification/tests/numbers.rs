use investments::broker_statement::ib::common::parse_integer;
use investments::decimal::{parse_decimal, Decimal, DecimalRestrictions};
use investments::error::{IntegerError, StatementError};
use investments::text::{fold_spaces, remove_char};
use investments::time::{parse_date, parse_date_time, Date};

fn dec(negative: bool, magnitude: u128, scale: u32) -> Decimal {
    Decimal { negative, magnitude, scale }
}

fn text(value: Decimal) -> String {
    let mut text = String::new();
    value.push_to(&mut text);
    text
}

#[test]
fn decimals_read_back() {
    for (value, notation) in [
        (dec(false, 0, 0), "0"),
        (dec(false, 0, 2), "0.00"),
        (dec(true, 5, 1), "-0.5"),
        (dec(false, 5, 3), "0.005"),
        (dec(false, 12345, 2), "123.45"),
        (dec(false, 1230, 1), "123.0"),
        (dec(true, 7, 0), "-7"),
        (dec(false, u128::MAX, 0), "340282366920938463463374607431768211455"),
    ] {
        assert_eq!(text(value), notation);
        if value.magnitude != 0 {
            assert_eq!(parse_decimal(notation, DecimalRestrictions::NonZero), Ok(value));
        } else {
            assert_eq!(parse_decimal(notation, DecimalRestrictions::PositiveOrZero), Ok(value));
        }
    }
}

#[test]
fn decimal_forms() {
    let parse = |text| parse_decimal(text, DecimalRestrictions::PositiveOrZero);
    assert_eq!(parse("+1.50"), Ok(dec(false, 150, 2)));
    assert_eq!(parse(".5"), Ok(dec(false, 5, 1)));
    assert_eq!(parse("5."), Ok(dec(false, 5, 0)));
    assert_eq!(parse("-0"), Ok(dec(true, 0, 0)));
    for text in ["", "-", ".", "1..2", "1.2.3", "--1", "1 ", "a", "1e5", "340282366920938463463374607431768211456"] {
        assert_eq!(parse(text), Err(StatementError::InvalidDecimal(text.to_owned())));
    }
}

#[test]
fn decimal_restrictions() {
    let forbidden = |text: &str, restrictions| {
        assert_eq!(parse_decimal(text, restrictions), Err(StatementError::ForbiddenDecimal(text.to_owned())));
    };
    forbidden("0", DecimalRestrictions::NonZero);
    forbidden("-1", DecimalRestrictions::PositiveOrZero);
    forbidden("0", DecimalRestrictions::StrictlyPositive);
    forbidden("-1", DecimalRestrictions::StrictlyPositive);
    forbidden("0.0", DecimalRestrictions::StrictlyNegative);
    forbidden("1", DecimalRestrictions::StrictlyNegative);
    assert_eq!(parse_decimal("-1", DecimalRestrictions::NonZero), Ok(dec(true, 1, 0)));
    assert_eq!(parse_decimal("-1", DecimalRestrictions::StrictlyNegative), Ok(dec(true, 1, 0)));
    assert_eq!(parse_decimal("1", DecimalRestrictions::StrictlyPositive), Ok(dec(false, 1, 0)));
}

#[test]
fn integers() {
    assert_eq!(parse_integer("0"), Ok(0));
    assert_eq!(parse_integer("+17"), Ok(17));
    assert_eq!(parse_integer("4294967295"), Ok(u32::MAX));
    for (text, error) in [
        ("", IntegerError::Empty),
        ("+", IntegerError::InvalidDigit),
        ("++1", IntegerError::InvalidDigit),
        ("-1", IntegerError::InvalidDigit),
        ("1x", IntegerError::InvalidDigit),
        ("1\u{663}", IntegerError::InvalidDigit),
        ("4294967296", IntegerError::TooLarge),
        ("4294967296x", IntegerError::TooLarge),
        ("429496729x", IntegerError::InvalidDigit),
        ("99999999999999999999999999999999999999999", IntegerError::TooLarge),
    ] {
        assert_eq!(parse_integer(text), Err(StatementError::InvalidInteger(error)));
        // The message is that of the standard library.
        assert_eq!(
            StatementError::InvalidInteger(error).message(),
            text.parse::<u32>().unwrap_err().to_string(),
        );
    }
}

#[test]
fn calendar() {
    assert_eq!(parse_date("2020-02-29"), Ok(Date { year: 2020, month: 2, day: 29 }));
    assert_eq!(parse_date("2000-02-29"), Ok(Date { year: 2000, month: 2, day: 29 }));
    for text in ["2021-02-29", "1900-02-29", "2020-04-31", "2020-13-01", "2020-00-10", "2020-01-00", "2020/01/01", "+020-01-01"] {
        assert_eq!(parse_date(text), Err(StatementError::InvalidDate(text.to_owned())));
    }
    assert!(parse_date_time("2020-02-29, 23:59:59").is_ok());
    assert!(parse_date_time("2020-02-29, 23:60:00").is_err());
}

#[test]
fn clean_text() {
    assert_eq!(fold_spaces("  a   b c  "), " a b c ");
    assert_eq!(fold_spaces(&fold_spaces("a   b")), "a b");
    assert_eq!(fold_spaces(""), "");
    assert_eq!(remove_char("1,234,567.8", ','), "1234567.8");
}

#[test]
fn error_messages() {
    assert_eq!(StatementError::MissingField("A".to_owned()).message(), "The record has no field: \"A\"");
    assert_eq!(StatementError::InvalidDate("x".to_owned()).message(), "Invalid date: \"x\"");
    assert_eq!(StatementError::InvalidDateTime("x".to_owned()).message(), "Invalid date and time: \"x\"");
    assert_eq!(StatementError::InvalidPattern("(".to_owned()).message(), "Invalid regular expression: \"(\"");
    assert_eq!(StatementError::UnsupportedSymbol("?".to_owned()).message(), "Unsupported stock symbol: \"?\"");
    assert_eq!(StatementError::InvalidDecimal("x".to_owned()).message(), "Invalid decimal value: \"x\"");
    assert_eq!(StatementError::ForbiddenDecimal("0".to_owned()).message(), "Unexpected decimal value: \"0\"");
}

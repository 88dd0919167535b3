//! What can be wrong with a report.

use vstd::prelude::*;

use crate::decimal::Decimal;
use crate::formatting;
use crate::time::Date;

verus! {

/// What can be wrong with an integer.
#[derive(Debug, Clone, Copy, PartialEq, Eq, Structural)]
pub enum IntegerError {
    Empty,
    InvalidDigit,
    TooLarge,
}

impl IntegerError {
    /// What the error says.
    pub open spec fn text(self) -> Seq<char> {
        match self {
            IntegerError::Empty => "cannot parse integer from empty string"@,
            IntegerError::InvalidDigit => "invalid digit found in string"@,
            IntegerError::TooLarge => "number too large to fit in target type"@,
        }
    }

    /// What the error says.
    pub fn message(self) -> (r: String)
        ensures
            r@ == self.text(),
    {
        match self {
            IntegerError::Empty => "cannot parse integer from empty string".to_owned(),
            IntegerError::InvalidDigit => "invalid digit found in string".to_owned(),
            IntegerError::TooLarge => "number too large to fit in target type".to_owned(),
        }
    }
}

#[derive(Debug, PartialEq, Eq)]
pub enum StatementError {
    /// A record has no value for the field.
    MissingField(String),
    UnsupportedAssetCategory(String),
    InvalidDate(String),
    InvalidDateTime(String),
    /// A regular expression that does not compile.
    InvalidPattern(String),
    UnsupportedCorporateAction(String),
    UnsupportedSymbol(String),
    InvalidDecimal(String),
    /// A number that its place in the report does not allow.
    ForbiddenDecimal(String),
    InvalidInteger(IntegerError),
    CurrencyMismatch { price_currency: String, currency: String },
    UnexpectedVolume { quantity: Decimal, price: Decimal, volume: Decimal },
    UnsupportedStockSplit { symbol: String, date: Date },
}

/// An error with its texts as sequences of characters.
pub ghost enum ErrorModel {
    MissingField(Seq<char>),
    UnsupportedAssetCategory(Seq<char>),
    InvalidDate(Seq<char>),
    InvalidDateTime(Seq<char>),
    InvalidPattern(Seq<char>),
    UnsupportedCorporateAction(Seq<char>),
    UnsupportedSymbol(Seq<char>),
    InvalidDecimal(Seq<char>),
    ForbiddenDecimal(Seq<char>),
    InvalidInteger(IntegerError),
    CurrencyMismatch { price_currency: Seq<char>, currency: Seq<char> },
    UnexpectedVolume { quantity: Decimal, price: Decimal, volume: Decimal },
    UnsupportedStockSplit { symbol: Seq<char>, date: Date },
}

impl View for StatementError {
    type V = ErrorModel;

    open spec fn view(&self) -> ErrorModel {
        match self {
            StatementError::MissingField(field) => ErrorModel::MissingField(field@),
            StatementError::UnsupportedAssetCategory(name) => {
                ErrorModel::UnsupportedAssetCategory(name@)
            },
            StatementError::InvalidDate(text) => ErrorModel::InvalidDate(text@),
            StatementError::InvalidDateTime(text) => ErrorModel::InvalidDateTime(text@),
            StatementError::InvalidPattern(text) => ErrorModel::InvalidPattern(text@),
            StatementError::UnsupportedCorporateAction(text) => {
                ErrorModel::UnsupportedCorporateAction(text@)
            },
            StatementError::UnsupportedSymbol(symbol) => ErrorModel::UnsupportedSymbol(symbol@),
            StatementError::InvalidDecimal(text) => ErrorModel::InvalidDecimal(text@),
            StatementError::ForbiddenDecimal(text) => ErrorModel::ForbiddenDecimal(text@),
            StatementError::InvalidInteger(error) => ErrorModel::InvalidInteger(*error),
            StatementError::CurrencyMismatch { price_currency, currency } => {
                ErrorModel::CurrencyMismatch { price_currency: price_currency@, currency: currency@ }
            },
            StatementError::UnexpectedVolume { quantity, price, volume } => {
                ErrorModel::UnexpectedVolume { quantity: *quantity, price: *price, volume: *volume }
            },
            StatementError::UnsupportedStockSplit { symbol, date } => {
                ErrorModel::UnsupportedStockSplit { symbol: symbol@, date: *date }
            },
        }
    }
}

/// A result with its error as a model.
pub open spec fn outcome<T>(result: Result<T, StatementError>) -> Result<T, ErrorModel> {
    match result {
        Ok(value) => Ok(value),
        Err(error) => Err(error@),
    }
}

/// A result with its value and its error as models.
pub open spec fn outcome_view<T: View>(result: Result<T, StatementError>) -> Result<
    T::V,
    ErrorModel,
> {
    match result {
        Ok(value) => Ok(value@),
        Err(error) => Err(error@),
    }
}

/// A text in quotation marks, with what cannot stand between them escaped.
pub uninterp spec fn quoted(text: Seq<char>) -> Seq<char>;

/// `format!` with `{:?}` puts a text in quotation marks and escapes what cannot stand between them,
/// as the `Debug` of `str` does. What comes out depends on the text alone, and is called `quoted`.
#[verifier::external_body]
fn quote(text: &str) -> (r: String)
    ensures
        r@ == quoted(text@),
{
    format!("{:?}", text)
}

impl ErrorModel {
    /// What the error says.
    pub open spec fn message(self) -> Seq<char> {
        match self {
            ErrorModel::MissingField(field) => "The record has no field: "@ + quoted(field),
            ErrorModel::UnsupportedAssetCategory(name) => {
                "Unsupported asset category of corporate action: "@ + quoted(name)
            },
            ErrorModel::InvalidDate(text) => "Invalid date: "@ + quoted(text),
            ErrorModel::InvalidDateTime(text) => "Invalid date and time: "@ + quoted(text),
            ErrorModel::InvalidPattern(text) => "Invalid regular expression: "@ + quoted(text),
            ErrorModel::UnsupportedCorporateAction(text) => {
                "Unsupported corporate action: "@ + quoted(text)
            },
            ErrorModel::UnsupportedSymbol(symbol) => "Unsupported stock symbol: "@ + quoted(symbol),
            ErrorModel::InvalidDecimal(text) => "Invalid decimal value: "@ + quoted(text),
            ErrorModel::ForbiddenDecimal(text) => "Unexpected decimal value: "@ + quoted(text),
            ErrorModel::InvalidInteger(error) => error.text(),
            ErrorModel::CurrencyMismatch { price_currency, currency } => {
                "Price and volume currency mismatch: "@ + price_currency + " vs "@ + currency
            },
            ErrorModel::UnexpectedVolume { quantity, price, volume } => {
                "Unexpected volume: "@ + volume.notation() + " for "@ + quantity.notation() + " at "@
                    + price.notation()
            },
            ErrorModel::UnsupportedStockSplit { symbol, date } => {
                "Unsupported stock split: "@ + symbol + " at "@ + formatting::date_text(date)
            },
        }
    }
}

/// The text, and behind it another one in quotation marks.
fn with_quoted(text: &str, subject: &String) -> (r: String)
    ensures
        r@ == text@ + quoted(subject@),
{
    let mut r = text.to_owned();
    r.append(quote(subject.as_str()).as_str());
    r
}

impl StatementError {
    /// What the error says.
    pub fn message(&self) -> (r: String)
        ensures
            r@ == self@.message(),
    {
        match self {
            StatementError::MissingField(field) => with_quoted("The record has no field: ", field),
            StatementError::UnsupportedAssetCategory(name) => {
                with_quoted("Unsupported asset category of corporate action: ", name)
            },
            StatementError::InvalidDate(text) => with_quoted("Invalid date: ", text),
            StatementError::InvalidDateTime(text) => with_quoted("Invalid date and time: ", text),
            StatementError::InvalidPattern(text) => {
                with_quoted("Invalid regular expression: ", text)
            },
            StatementError::UnsupportedCorporateAction(text) => {
                with_quoted("Unsupported corporate action: ", text)
            },
            StatementError::UnsupportedSymbol(symbol) => {
                with_quoted("Unsupported stock symbol: ", symbol)
            },
            StatementError::InvalidDecimal(text) => with_quoted("Invalid decimal value: ", text),
            StatementError::ForbiddenDecimal(text) => {
                with_quoted("Unexpected decimal value: ", text)
            },
            StatementError::InvalidInteger(error) => error.message(),
            StatementError::CurrencyMismatch { price_currency, currency } => {
                let mut r = "Price and volume currency mismatch: ".to_owned();
                r.append(price_currency.as_str());
                r.append(" vs ");
                r.append(currency.as_str());
                r
            },
            StatementError::UnexpectedVolume { quantity, price, volume } => {
                let mut r = "Unexpected volume: ".to_owned();
                volume.push_to(&mut r);
                r.append(" for ");
                quantity.push_to(&mut r);
                r.append(" at ");
                price.push_to(&mut r);
                r
            },
            StatementError::UnsupportedStockSplit { symbol, date } => {
                let mut r = "Unsupported stock split: ".to_owned();
                r.append(symbol.as_str());
                r.append(" at ");
                r.append(formatting::format_date(*date).as_str());
                r
            },
        }
    }
}

} // verus!

//! What holds of all errors.

use vstd::prelude::*;

use crate::error::{self, ErrorModel, IntegerError, StatementError};
use crate::formatting;

verus! {

/// Errors of different kinds, or with different contents, are told apart.
pub proof fn errors_are_told_apart(error: StatementError)
    ensures
        match error {
            StatementError::MissingField(field) => error@ == ErrorModel::MissingField(field@),
            StatementError::UnsupportedAssetCategory(name) => error@
                == ErrorModel::UnsupportedAssetCategory(name@),
            StatementError::InvalidDate(text) => error@ == ErrorModel::InvalidDate(text@),
            StatementError::InvalidDateTime(text) => error@ == ErrorModel::InvalidDateTime(text@),
            StatementError::InvalidPattern(text) => error@ == ErrorModel::InvalidPattern(text@),
            StatementError::UnsupportedCorporateAction(text) => error@
                == ErrorModel::UnsupportedCorporateAction(text@),
            StatementError::UnsupportedSymbol(symbol) => error@ == ErrorModel::UnsupportedSymbol(
                symbol@,
            ),
            StatementError::InvalidDecimal(text) => error@ == ErrorModel::InvalidDecimal(text@),
            StatementError::ForbiddenDecimal(text) => error@ == ErrorModel::ForbiddenDecimal(text@),
            StatementError::InvalidInteger(reason) => error@ == ErrorModel::InvalidInteger(reason),
            StatementError::CurrencyMismatch { price_currency, currency } => {
                &&& error@ is CurrencyMismatch
                &&& error@->price_currency == price_currency@
                &&& error@->currency == currency@
            },
            StatementError::UnexpectedVolume { quantity, price, volume } => {
                &&& error@ is UnexpectedVolume
                &&& error@->quantity == quantity
                &&& error@->price == price
                &&& error@->volume == volume
            },
            StatementError::UnsupportedStockSplit { symbol, date } => {
                &&& error@ is UnsupportedStockSplit
                &&& error@->symbol == symbol@
                &&& error@->date == date
            },
        },
{
}

/// A result is a success or a failure whichever way it is looked at, with the same contents.
pub proof fn results_keep_their_contents<T: View>(result: Result<T, StatementError>)
    ensures
        result matches Ok(value) ==> error::outcome(result) == Ok::<T, ErrorModel>(value)
            && error::outcome_view(result) == Ok::<T::V, ErrorModel>(value@),
        result matches Err(failure) ==> error::outcome(result) == Err::<T, ErrorModel>(failure@)
            && error::outcome_view(result) == Err::<T::V, ErrorModel>(failure@),
{
}

/// A message names what is wrong, and what it is wrong with.
pub proof fn messages_name_what_is_wrong(failure: ErrorModel)
    ensures
        match failure {
            ErrorModel::MissingField(field) => failure.message() == "The record has no field: "@
                + error::quoted(field),
            ErrorModel::UnsupportedAssetCategory(name) => failure.message()
                == "Unsupported asset category of corporate action: "@ + error::quoted(name),
            ErrorModel::InvalidDate(text) => failure.message() == "Invalid date: "@ + error::quoted(
                text,
            ),
            ErrorModel::InvalidDateTime(text) => failure.message() == "Invalid date and time: "@
                + error::quoted(text),
            ErrorModel::InvalidPattern(text) => failure.message() == "Invalid regular expression: "@
                + error::quoted(text),
            ErrorModel::UnsupportedCorporateAction(text) => failure.message()
                == "Unsupported corporate action: "@ + error::quoted(text),
            ErrorModel::UnsupportedSymbol(symbol) => failure.message()
                == "Unsupported stock symbol: "@ + error::quoted(symbol),
            ErrorModel::InvalidDecimal(text) => failure.message() == "Invalid decimal value: "@
                + error::quoted(text),
            ErrorModel::ForbiddenDecimal(text) => failure.message() == "Unexpected decimal value: "@
                + error::quoted(text),
            ErrorModel::InvalidInteger(IntegerError::Empty) => failure.message()
                == "cannot parse integer from empty string"@,
            ErrorModel::InvalidInteger(IntegerError::InvalidDigit) => failure.message()
                == "invalid digit found in string"@,
            ErrorModel::InvalidInteger(IntegerError::TooLarge) => failure.message()
                == "number too large to fit in target type"@,
            ErrorModel::CurrencyMismatch { price_currency, currency } => failure.message()
                == "Price and volume currency mismatch: "@ + price_currency + " vs "@ + currency,
            ErrorModel::UnexpectedVolume { quantity, price, volume } => failure.message()
                == "Unexpected volume: "@ + volume.notation() + " for "@ + quantity.notation()
                + " at "@ + price.notation(),
            ErrorModel::UnsupportedStockSplit { symbol, date } => failure.message()
                == "Unsupported stock split: "@ + symbol + " at "@ + formatting::date_text(date),
        },
{
}

} // verus!

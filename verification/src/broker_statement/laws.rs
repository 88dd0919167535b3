//! What holds of all statements.

use vstd::prelude::*;

use crate::broker_statement::corporate_actions::{
    CorporateAction, CorporateActionType, CorporateActionTypeModel,
};
use crate::broker_statement::{self, InstrumentName, Withholding};
use crate::currency::Cash;
use crate::decimal::Decimal;

verus! {

/// An instrument has the name that stands first for its symbol.
pub proof fn first_name_of_a_symbol_counts(names: Seq<InstrumentName>, symbol: Seq<char>, i: int)
    requires
        0 <= i < names.len(),
        names[i].symbol@ == symbol,
        forall|j: int| 0 <= j < i ==> (#[trigger] names[j]).symbol@ != symbol,
    ensures
        broker_statement::instrument_name(names, symbol) == names[i].name@,
    decreases names.len(),
{
    if i > 0 {
        assert(names[0].symbol@ != symbol);
        let rest = names.drop_first();
        assert(rest[i - 1] == names[i]);
        assert forall|j: int| 0 <= j < i - 1 implies (#[trigger] rest[j]).symbol@ != symbol by {
            assert(rest[j] == names[j + 1]);
        }
        first_name_of_a_symbol_counts(rest, symbol, i - 1);
    }
}

/// An instrument without a name goes by its symbol.
pub proof fn instrument_without_a_name_goes_by_its_symbol(
    names: Seq<InstrumentName>,
    symbol: Seq<char>,
)
    requires
        forall|j: int| 0 <= j < names.len() ==> (#[trigger] names[j]).symbol@ != symbol,
    ensures
        broker_statement::instrument_name(names, symbol) == symbol,
    decreases names.len(),
{
    if names.len() > 0 {
        assert(names[0].symbol@ != symbol);
        let rest = names.drop_first();
        assert forall|j: int| 0 <= j < rest.len() implies (#[trigger] rest[j]).symbol@ != symbol by {
            assert(rest[j] == names[j + 1]);
        }
        instrument_without_a_name_goes_by_its_symbol(rest, symbol);
    }
}

/// What was given back counts as withheld with the other sign.
pub proof fn refund_counts_with_the_other_sign(amount: Cash)
    ensures
        Withholding::Withholding(amount).withheld() == amount,
        Withholding::Refund(amount).withheld() == (Cash {
            currency: amount.currency,
            amount: Decimal {
                negative: !amount.amount.negative,
                magnitude: amount.amount.magnitude,
                scale: amount.amount.scale,
            },
        }),
{
}

/// The contents of a corporate action are those of its fields.
pub proof fn corporate_action_keeps_its_contents(action: CorporateAction)
    ensures
        action@.time == action.time,
        action@.report_date == action.report_date,
        action@.symbol == action.symbol@,
        match action.action {
            CorporateActionType::Liquidation { quantity, price, volume, currency } => {
                &&& action@.action is Liquidation
                &&& action@.action->Liquidation_quantity == quantity
                &&& action@.action->price == price
                &&& action@.action->volume == volume
                &&& action@.action->Liquidation_currency == currency@
            },
            CorporateActionType::Spinoff { symbol, quantity, currency } => {
                &&& action@.action is Spinoff
                &&& action@.action->symbol == symbol@
                &&& action@.action->Spinoff_quantity == quantity
                &&& action@.action->Spinoff_currency == currency@
            },
            CorporateActionType::StockDividend { stock, quantity } => {
                &&& action@.action is StockDividend
                &&& action@.action->stock is Some <==> stock is Some
                &&& stock is Some ==> action@.action->stock->0 == stock->0@
                &&& action@.action->StockDividend_quantity == quantity
            },
            CorporateActionType::StockSplit { ratio, withdrawal, deposit } => action@.action
                == (CorporateActionTypeModel::StockSplit { ratio, withdrawal, deposit }),
            CorporateActionType::SubscribableRightsIssue => {
                action@.action is SubscribableRightsIssue
            },
        },
{
}

} // verus!

//! What the records of corporate actions are read as.

use vstd::prelude::*;

use crate::broker_statement::corporate_actions as model;
use crate::broker_statement::ib::common::{self, Record};
use crate::broker_statement::ib::corporate_actions as section;
use crate::decimal::{self, DecimalRestrictions};
use crate::error;
use crate::pattern;
use crate::text;

verus! {

pub open spec fn succeeds_with<T>(result: Result<T, error::ErrorModel>, value: T) -> bool {
    result matches Ok(found) && found == value
}

pub open spec fn fails_with<T>(
    result: Result<T, error::ErrorModel>,
    failure: error::ErrorModel,
) -> bool {
    result matches Err(found) && found == failure
}

/// A record is read only where it speaks of stocks, and its moment, its report date and its
/// description are those of the fields named so. Runs of spaces in the description are one space.
pub proof fn header_is_read_from_its_fields(record: Record)
    ensures
        section::header(record) matches Ok(header) ==> {
            &&& succeeds_with(record.value("Asset Category"@), "Stocks"@)
            &&& succeeds_with(record.date_time("Date/Time"@), header.time)
            &&& succeeds_with(record.date("Report Date"@), header.report_date)
            &&& record.value("Description"@) matches Ok(description)
            &&& header.description == text::folded_spaces(description)
        },
        succeeds_with(record.value("Asset Category"@), "Stocks"@)
            && record.date_time("Date/Time"@) is Ok && record.date("Report Date"@) is Ok
            && record.value("Description"@) is Ok ==> section::header(record) is Ok,
        record.value("Asset Category"@) matches Err(failure)
            ==> fails_with(section::header(record), failure),
        record.value("Asset Category"@) matches Ok(category) ==> category != "Stocks"@
            ==> fails_with(
            section::header(record),
            error::ErrorModel::UnsupportedAssetCategory(category),
        ),
        succeeds_with(record.value("Asset Category"@), "Stocks"@) ==> {
            &&& record.date_time("Date/Time"@) matches Err(failure)
                    ==> fails_with(section::header(record), failure)
            &&& record.date_time("Date/Time"@) is Ok ==> (record.date(
                "Report Date"@,
            ) matches Err(failure) ==> fails_with(
                section::header(record),
                failure,
            ))
            &&& record.date_time("Date/Time"@) is Ok && record.date("Report Date"@) is Ok ==> (
            record.value("Description"@) matches Err(failure)
                ==> fails_with(section::header(record), failure))
        },
{
}

/// Whether a record was read as an action of a kind: at the moment and with the report date of its
/// header, for the first symbol of its description.
pub open spec fn is_read_as(
    result: Result<model::CorporateActionModel, error::ErrorModel>,
    header: section::HeaderModel,
    symbol: Seq<char>,
    action: model::CorporateActionTypeModel,
) -> bool {
    &&& result matches Ok(read)
    &&& read.time.date == header.time.date
    &&& read.time.time == Some(header.time.time)
    &&& read.report_date == Some(header.report_date)
    &&& read.symbol == symbol
    &&& read.action == action
}

/// Whatever a record is read as, it concerns the first symbol of its description, at the moment and
/// with the report date of its header. A symbol that cannot be read fails, the first one first.
pub proof fn action_concerns_the_first_symbol(
    record: Record,
    header: section::HeaderModel,
    said: section::DescribedModel,
)
    ensures
        ({
            let result = section::parsed_described(record, header, Some(said));
            let symbol = common::parsed_symbol(said.symbol);
            let other_symbol = common::parsed_symbol(said.other_symbol);
            &&& result matches Ok(read) ==> is_read_as(result, header, symbol->Ok_0, read.action)
                && symbol is Ok && other_symbol is Ok
            &&& symbol matches Err(failure) ==> fails_with(result, failure)
            &&& symbol is Ok ==> (other_symbol matches Err(failure) ==> fails_with(result, failure))
        }),
        fails_with(
            section::parsed_described(record, header, None),
            error::ErrorModel::UnsupportedCorporateAction(header.description),
        ),
{
}

/// A stock dividend hands out the stock with the secondary symbol of the description, whatever the
/// first one is, in the quantity of the record, which is positive.
pub proof fn stock_dividend_hands_out_the_secondary_stock(
    record: Record,
    header: section::HeaderModel,
    said: section::DescribedModel,
)
    requires
        said.action is StockDividend,
    ensures
        ({
            let result = section::parsed_described(record, header, Some(said));
            let quantity = record.number("Quantity"@, DecimalRestrictions::StrictlyPositive);
            &&& common::parsed_symbol(said.symbol) matches Ok(symbol) ==> (common::parsed_symbol(
                said.other_symbol,
            ) matches Ok(other_symbol) ==> match quantity {
                Ok(quantity) => is_read_as(
                    result,
                    header,
                    symbol,
                    model::CorporateActionTypeModel::StockDividend {
                        stock: Some(other_symbol),
                        quantity,
                    },
                ),
                Err(failure) => fails_with(result, failure),
            })
            &&& result matches Ok(read) ==> {
                &&& read.action is StockDividend
                &&& succeeds_with(
                    common::parsed_symbol(said.other_symbol),
                    read.action->stock->0,
                )
                &&& read.action->stock is Some
            }
        }),
{
}

/// Which stock a stock dividend hands out does not depend on the stock that it is paid for.
pub proof fn handed_out_stock_does_not_depend_on_the_first_symbol(
    record: Record,
    header: section::HeaderModel,
    said: section::DescribedModel,
    symbol: Seq<char>,
)
    requires
        said.action is StockDividend || said.action is Spinoff,
        common::parsed_symbol(said.symbol) is Ok,
        common::parsed_symbol(symbol) is Ok,
    ensures
        ({
            let result = section::parsed_described(record, header, Some(said));
            let other = section::parsed_described(
                record,
                header,
                Some(section::DescribedModel { symbol, ..said }),
            );
            &&& result is Ok <==> other is Ok
            &&& result is Ok ==> result->Ok_0.action == other->Ok_0.action
            &&& result is Err ==> result == other
        }),
{
}

/// A spinoff hands out the stock with the secondary symbol of the description, in the quantity of
/// the record, which is positive, and in its currency.
pub proof fn spinoff_hands_out_the_secondary_stock(
    record: Record,
    header: section::HeaderModel,
    said: section::DescribedModel,
)
    requires
        said.action is Spinoff,
        common::parsed_symbol(said.symbol) is Ok,
        common::parsed_symbol(said.other_symbol) is Ok,
    ensures
        ({
            let result = section::parsed_described(record, header, Some(said));
            let quantity = record.number("Quantity"@, DecimalRestrictions::StrictlyPositive);
            let currency = record.value("Currency"@);
            &&& quantity is Ok && currency is Ok ==> is_read_as(
                result,
                header,
                common::parsed_symbol(said.symbol)->Ok_0,
                model::CorporateActionTypeModel::Spinoff {
                    symbol: common::parsed_symbol(said.other_symbol)->Ok_0,
                    quantity: quantity->Ok_0,
                    currency: currency->Ok_0,
                },
            )
            &&& quantity matches Err(failure) ==> fails_with(result, failure)
            &&& quantity is Ok ==> (currency matches Err(failure) ==> fails_with(result, failure))
        }),
{
}

/// A rights issue needs nothing but the symbols.
pub proof fn rights_issue_is_read_from_its_symbols(
    record: Record,
    header: section::HeaderModel,
    said: section::DescribedModel,
)
    requires
        said.action is SubscribableRightsIssue,
        common::parsed_symbol(said.symbol) is Ok,
        common::parsed_symbol(said.other_symbol) is Ok,
    ensures
        is_read_as(
            section::parsed_described(record, header, Some(said)),
            header,
            common::parsed_symbol(said.symbol)->Ok_0,
            model::CorporateActionTypeModel::SubscribableRightsIssue,
        ),
{
}

/// A split makes `to` shares of `from` shares, as the description says. A record with a minus takes
/// shares away, any other one brings them, and each tells the number of its shares without a sign.
/// Both symbols of the description are the same.
pub proof fn split_moves_the_shares_of_the_record(
    record: Record,
    header: section::HeaderModel,
    said: section::DescribedModel,
)
    requires
        said.action is Split,
        common::parsed_symbol(said.symbol) is Ok,
        common::parsed_symbol(said.other_symbol) is Ok,
    ensures
        ({
            let result = section::parsed_described(record, header, Some(said));
            let symbol = common::parsed_symbol(said.symbol)->Ok_0;
            let from = common::parsed_integer(said.action->from);
            let to = common::parsed_integer(said.action->to);
            let change = record.number("Quantity"@, DecimalRestrictions::NonZero);
            let same = symbol == common::parsed_symbol(said.other_symbol)->Ok_0;
            &&& !same ==> fails_with(
                result,
                error::ErrorModel::UnsupportedCorporateAction(header.description),
            )
            &&& same && from is Ok && to is Ok && change is Ok ==> is_read_as(
                result,
                header,
                symbol,
                model::CorporateActionTypeModel::StockSplit {
                    ratio: model::StockSplitRatio { from: from->Ok_0, to: to->Ok_0 },
                    withdrawal: if change->Ok_0.negative {
                        Some(decimal::Decimal { negative: false, ..change->Ok_0 })
                    } else {
                        None
                    },
                    deposit: if change->Ok_0.negative {
                        None
                    } else {
                        Some(change->Ok_0)
                    },
                },
            )
            &&& same ==> (from matches Err(failure) ==> fails_with(
                result,
                failure,
            ))
            &&& same && from is Ok ==> (to matches Err(failure) ==> fails_with(result, failure))
            &&& same && from is Ok && to is Ok ==> (change matches Err(failure)
                    ==> fails_with(result, failure))
        }),
{
}

/// A liquidation takes away the shares of the record, which has a minus, for its proceeds, at the
/// price of the description and in the currency that record and description agree on. The proceeds
/// agree with the price. Both symbols of the description are the same.
pub proof fn liquidation_pays_for_the_shares_of_the_record(
    record: Record,
    header: section::HeaderModel,
    said: section::DescribedModel,
)
    requires
        said.action is Liquidation,
        common::parsed_symbol(said.symbol) is Ok,
        common::parsed_symbol(said.other_symbol) is Ok,
    ensures
        ({
            let result = section::parsed_described(record, header, Some(said));
            let symbol = common::parsed_symbol(said.symbol)->Ok_0;
            let same = symbol == common::parsed_symbol(said.other_symbol)->Ok_0;
            let currency = record.value("Currency"@);
            let volume = record.number("Proceeds"@, DecimalRestrictions::PositiveOrZero);
            let change = record.number("Quantity"@, DecimalRestrictions::StrictlyNegative);
            let price = decimal::restricted_decimal(
                said.action->price,
                DecimalRestrictions::PositiveOrZero,
            );
            let quantity = decimal::Decimal { negative: false, ..change->Ok_0 };
            let complete = same && currency is Ok && volume is Ok && change is Ok && price is Ok;
            let agreed = said.action->currency == currency->Ok_0;
            let expected = common::volume_is_expected(quantity, price->Ok_0, volume->Ok_0);
            &&& !same ==> fails_with(
                result,
                error::ErrorModel::UnsupportedCorporateAction(header.description),
            )
            &&& complete && agreed && expected ==> is_read_as(
                result,
                header,
                symbol,
                model::CorporateActionTypeModel::Liquidation {
                    quantity,
                    price: price->Ok_0,
                    volume: volume->Ok_0,
                    currency: currency->Ok_0,
                },
            )
            &&& complete && !agreed ==> fails_with(
                result,
                error::ErrorModel::CurrencyMismatch {
                    price_currency: said.action->currency,
                    currency: currency->Ok_0,
                },
            )
            &&& complete && agreed && !expected ==> fails_with(
                result,
                error::ErrorModel::UnexpectedVolume {
                    quantity,
                    price: price->Ok_0,
                    volume: volume->Ok_0,
                },
            )
            &&& same ==> (currency matches Err(failure) ==> fails_with(
                result,
                failure,
            ))
            &&& same && currency is Ok ==> (volume matches Err(failure)
                    ==> fails_with(result, failure))
            &&& same && currency is Ok && volume is Ok ==> (change matches Err(failure)
                    ==> fails_with(result, failure))
            &&& same && currency is Ok && volume is Ok && change is Ok ==> (
            price matches Err(failure) ==> fails_with(result, failure))
        }),
{
}

/// The texts that match the groups of the pattern for splits, spinoffs, stock dividends and rights
/// issues say the symbol, the kind of action, how many shares are made of how many, and the
/// secondary symbol.
pub proof fn groups_name_the_action(
    symbol: Seq<char>,
    action: Seq<char>,
    to: Seq<char>,
    from: Seq<char>,
    other_symbol: Seq<char>,
)
    ensures
        ({
            let said = section::described_by_generic(
                seq![Some(symbol), Some(action), Some(to), Some(from), Some(other_symbol)],
            );
            &&& said matches Some(said) ==> said.symbol == symbol && said.other_symbol
                == other_symbol
            &&& said is Some && said->0.action is Spinoff <==> action == "Spinoff"@
            &&& said is Some && said->0.action is Split <==> action == "Split"@
            &&& said is Some && said->0.action is StockDividend <==> action == "Stock Dividend"@
            &&& said is Some && said->0.action is SubscribableRightsIssue <==> action
                == "Subscribable Rights Issue"@
            &&& said is Some ==> !(said->0.action is Liquidation)
            &&& action == "Split"@ ==> said->0.action->from == from && said->0.action->to == to
        }),
{
    reveal_strlit("Spinoff");
    reveal_strlit("Split");
    reveal_strlit("Stock Dividend");
    reveal_strlit("Subscribable Rights Issue");
    assert("Spinoff"@.len() == 7 && "Split"@.len() == 5 && "Stock Dividend"@.len() == 14
        && "Subscribable Rights Issue"@.len() == 25);
}

/// The texts that match the groups of the pattern for liquidations say the symbol, the action, the
/// currency, the price and the secondary symbol.
pub proof fn groups_name_the_liquidation(
    symbol: Seq<char>,
    action: Seq<char>,
    currency: Seq<char>,
    price: Seq<char>,
    other_symbol: Seq<char>,
)
    ensures
        ({
            let said = section::described_by_liquidation(
                seq![Some(symbol), Some(action), Some(currency), Some(price), Some(other_symbol)],
            );
            &&& said is Some <==> action == "Merged(Liquidation)"@
            &&& said matches Some(said) ==> {
                &&& said.symbol == symbol
                &&& said.other_symbol == other_symbol
                &&& said.action is Liquidation
                &&& said.action->currency == currency
                &&& said.action->price == price
            }
        }),
{
}

/// Groups of which one has no text say nothing.
pub proof fn groups_without_a_text_say_nothing(groups: Seq<Option<Seq<char>>>)
    requires
        groups.len() != 5 || groups[0] is None || groups[1] is None || groups[2] is None
            || groups[3] is None || groups[4] is None,
    ensures
        section::described_by_generic(groups) is None,
        section::described_by_liquidation(groups) is None,
{
}

/// A description is matched against the pattern for splits, spinoffs, stock dividends and rights
/// issues, and only where it does not match against the one for liquidations.
pub proof fn liquidations_are_tried_last(description: Seq<char>)
    ensures
        ({
            let generic = pattern::regex_groups(
                section::generic_pattern(),
                description,
                seq!["symbol"@, "action"@, "to"@, "from"@, "other_symbol"@],
            );
            let liquidation = pattern::regex_groups(
                section::liquidation_pattern(),
                description,
                seq!["symbol"@, "action"@, "currency"@, "price"@, "other_symbol"@],
            );
            let said = section::described(description);
            &&& generic is None ==> fails_with(
                said,
                error::ErrorModel::InvalidPattern(section::generic_pattern()),
            )
            &&& generic matches Some(Some(groups)) ==> succeeds_with(
                said,
                section::described_by_generic(groups),
            )
            &&& generic == Some(None::<Seq<Option<Seq<char>>>>) ==> {
                &&& liquidation is None ==> fails_with(
                    said,
                    error::ErrorModel::InvalidPattern(section::liquidation_pattern()),
                )
                &&& liquidation matches Some(Some(groups)) ==> succeeds_with(
                    said,
                    section::described_by_liquidation(groups),
                )
                &&& liquidation == Some(None::<Seq<Option<Seq<char>>>>)
                        ==> succeeds_with(said, None)
            }
        }),
{
}

/// The patterns, written out.
pub proof fn patterns_are_written_out()
    ensures
        section::generic_pattern() == "^(?P<symbol>"@ + "[A-Z0-9]+(?:[ .][A-Z]+)??"@ + ") ?\\("@
            + "[A-Z0-9]+"@ + "\\) "@
            + "(?P<action>Spinoff|Split|Stock Dividend|Subscribable Rights Issue) "@ + "(?:"@
            + "[A-Z0-9]+"@ + " )?(?P<to>[1-9]\\d*) for (?P<from>[1-9]\\d*) "@
            + "\\((?P<other_symbol>"@ + "[A-Z0-9]+(?:[ .][A-Z]+)??"@ + ")(?:"@ + pattern::escaped(
            ".OLD"@,
        ) + ")?(?: (?:RT|WI))*, [^,)]+, "@ + "[A-Z0-9]+"@ + "\\)$"@,
        section::liquidation_pattern() == "^(?P<symbol>"@ + "[A-Z0-9]+(?:[ .][A-Z]+)??"@
            + ") ?\\("@ + "[A-Z0-9]+"@ + "\\) "@ + "(?P<action>Merged\\(Liquidation\\)) "@
            + "FOR (?P<currency>[A-Z]{3}) (?P<price>[0-9.]+) PER SHARE "@ + "\\((?P<other_symbol>"@
            + "[A-Z0-9]+(?:[ .][A-Z]+)??"@ + "), [^,)]+, "@ + "[A-Z0-9]+"@ + "\\)$"@,
{
}

/// A record is read by its header, its description and what the description says, and the first of
/// them that fails decides.
pub proof fn record_is_read_step_by_step(record: Record)
    ensures
        section::header(record) matches Err(failure)
            ==> fails_with(section::parsed(record), failure),
        section::header(record) matches Ok(header) ==> {
            &&& section::described(header.description) matches Err(failure)
                    ==> fails_with(section::parsed(record), failure)
            &&& section::described(header.description) matches Ok(said) ==> section::parsed(record)
                == section::parsed_described(record, header, said)
        },
{
}

/// Only the records of closed lots are passed over.
pub proof fn only_closed_lots_are_passed_over(record: Record)
    ensures
        record.value("Report Date"@) matches Err(failure)
            ==> fails_with(section::listed_action(record), failure),
        succeeds_with(record.value("Report Date"@), "Closed Lot:"@)
            ==> succeeds_with(section::listed_action(record), None),
        record.value("Report Date"@) matches Ok(value) ==> value != "Closed Lot:"@ ==> {
            &&& section::parsed(record) matches Ok(action)
                    ==> succeeds_with(section::listed_action(record), Some(action))
            &&& section::parsed(record) matches Err(failure)
                    ==> fails_with(section::listed_action(record), failure)
        },
{
}

/// What a description says keeps its texts.
pub proof fn described_action_keeps_its_contents(said: section::Described)
    ensures
        said@.symbol == said.symbol@,
        said@.other_symbol == said.other_symbol@,
        match said.action {
            section::DescribedAction::Liquidation { currency, price } => {
                &&& said@.action is Liquidation
                &&& said@.action->currency == currency@
                &&& said@.action->price == price@
            },
            section::DescribedAction::Spinoff => said@.action is Spinoff,
            section::DescribedAction::Split { from, to } => {
                &&& said@.action is Split
                &&& said@.action->from == from@
                &&& said@.action->to == to@
            },
            section::DescribedAction::StockDividend => said@.action is StockDividend,
            section::DescribedAction::SubscribableRightsIssue => {
                said@.action is SubscribableRightsIssue
            },
        },
        section::optional_view(Some(said)) == Some(said@),
        section::optional_view(None::<section::Described>) is None,
{
}

/// A header keeps its contents.
pub proof fn header_keeps_its_contents(header: section::Header)
    ensures
        header@.time == header.time,
        header@.report_date == header.report_date,
        header@.description == header.description@,
{
}

/// A character with a meaning of its own gets a backslash in front, and all others are kept.
pub proof fn escaped_characters_get_a_backslash(s: Seq<char>, c: char)
    ensures
        pattern::escaped(Seq::empty()) == Seq::<char>::empty(),
        pattern::is_meta(c) ==> pattern::escaped(s.push(c)) == pattern::escaped(s).push('\\').push(
            c,
        ),
        !pattern::is_meta(c) ==> pattern::escaped(s.push(c)) == pattern::escaped(s).push(c),
        pattern::is_meta('.'),
        65 <= c as int <= 90 || 97 <= c as int <= 122 || 48 <= c as int <= 57 || c == ' ' || c
            == ',' ==> !pattern::is_meta(c),
{
    assert(s.push(c).drop_last() =~= s);
}

} // verus!

//! The section of a report that lists corporate actions.

use vstd::prelude::*;

use crate::broker_statement::corporate_actions::{
    CorporateAction, CorporateActionType, StockSplitRatio,
};
use crate::broker_statement::corporate_actions;
use crate::broker_statement::ib::common::{self, Record};
use crate::broker_statement::ib::StatementParser;
use crate::decimal::{self, DecimalRestrictions};
use crate::error::{self, StatementError};
use crate::pattern;
use crate::text;
use crate::time::{Date, DateOptTime, DateTime};

verus! {

/// Splits, spinoffs, stock dividends and rights issues.
pub open spec fn generic_pattern() -> Seq<char> {
    "^(?P<symbol>"@ + common::STOCK_SYMBOL_REGEX@ + ") ?\\("@ + common::SECURITY_ID_REGEX@ + "\\) "@
        + "(?P<action>Spinoff|Split|Stock Dividend|Subscribable Rights Issue) "@ + "(?:"@
        + common::SECURITY_ID_REGEX@ + " )?(?P<to>[1-9]\\d*) for (?P<from>[1-9]\\d*) "@
        + "\\((?P<other_symbol>"@ + common::STOCK_SYMBOL_REGEX@ + ")(?:"@ + pattern::escaped(
        common::OLD_SYMBOL_SUFFIX@,
    ) + ")?(?: (?:RT|WI))*, [^,)]+, "@ + common::SECURITY_ID_REGEX@ + "\\)$"@
}

/// Liquidations.
pub open spec fn liquidation_pattern() -> Seq<char> {
    "^(?P<symbol>"@ + common::STOCK_SYMBOL_REGEX@ + ") ?\\("@ + common::SECURITY_ID_REGEX@ + "\\) "@
        + "(?P<action>Merged\\(Liquidation\\)) "@
        + "FOR (?P<currency>[A-Z]{3}) (?P<price>[0-9.]+) PER SHARE "@ + "\\((?P<other_symbol>"@
        + common::STOCK_SYMBOL_REGEX@ + "), [^,)]+, "@ + common::SECURITY_ID_REGEX@ + "\\)$"@
}

fn build_generic_pattern() -> (r: String)
    ensures
        r@ == generic_pattern(),
{
    let mut r = "^(?P<symbol>".to_owned();
    r.append(common::STOCK_SYMBOL_REGEX);
    r.append(") ?\\(");
    r.append(common::SECURITY_ID_REGEX);
    r.append("\\) ");
    r.append("(?P<action>Spinoff|Split|Stock Dividend|Subscribable Rights Issue) ");
    r.append("(?:");
    r.append(common::SECURITY_ID_REGEX);
    r.append(" )?(?P<to>[1-9]\\d*) for (?P<from>[1-9]\\d*) ");
    // The secondary symbol may be followed by the suffix of a replaced security, and by the
    // abbreviations RT (rights) and WI (when issued).
    r.append("\\((?P<other_symbol>");
    r.append(common::STOCK_SYMBOL_REGEX);
    r.append(")(?:");
    r.append(pattern::escape(common::OLD_SYMBOL_SUFFIX).as_str());
    r.append(")?(?: (?:RT|WI))*, [^,)]+, ");
    r.append(common::SECURITY_ID_REGEX);
    r.append("\\)$");
    r
}

fn build_liquidation_pattern() -> (r: String)
    ensures
        r@ == liquidation_pattern(),
{
    let mut r = "^(?P<symbol>".to_owned();
    r.append(common::STOCK_SYMBOL_REGEX);
    r.append(") ?\\(");
    r.append(common::SECURITY_ID_REGEX);
    r.append("\\) ");
    r.append("(?P<action>Merged\\(Liquidation\\)) ");
    r.append("FOR (?P<currency>[A-Z]{3}) (?P<price>[0-9.]+) PER SHARE ");
    r.append("\\((?P<other_symbol>");
    r.append(common::STOCK_SYMBOL_REGEX);
    r.append("), [^,)]+, ");
    r.append(common::SECURITY_ID_REGEX);
    r.append("\\)$");
    r
}

/// The names of the groups of `generic_pattern`.
pub open spec fn generic_names() -> Seq<Seq<char>> {
    seq!["symbol"@, "action"@, "to"@, "from"@, "other_symbol"@]
}

/// The names of the groups of `liquidation_pattern`.
pub open spec fn liquidation_names() -> Seq<Seq<char>> {
    seq!["symbol"@, "action"@, "currency"@, "price"@, "other_symbol"@]
}

/// The kind of action that a description names, with its terms.
#[derive(Debug, PartialEq, Eq)]
pub enum DescribedAction {
    Liquidation { currency: String, price: String },
    Spinoff,
    Split { from: String, to: String },
    StockDividend,
    SubscribableRightsIssue,
}

/// What a description says of a corporate action.
#[derive(Debug, PartialEq, Eq)]
pub struct Described {
    pub symbol: String,
    pub other_symbol: String,
    pub action: DescribedAction,
}

/// `DescribedAction` with its texts as sequences of characters.
pub ghost enum DescribedActionModel {
    Liquidation { currency: Seq<char>, price: Seq<char> },
    Spinoff,
    Split { from: Seq<char>, to: Seq<char> },
    StockDividend,
    SubscribableRightsIssue,
}

/// `Described` with its texts as sequences of characters.
pub ghost struct DescribedModel {
    pub symbol: Seq<char>,
    pub other_symbol: Seq<char>,
    pub action: DescribedActionModel,
}

impl View for DescribedAction {
    type V = DescribedActionModel;

    open spec fn view(&self) -> DescribedActionModel {
        match self {
            DescribedAction::Liquidation { currency, price } => {
                DescribedActionModel::Liquidation { currency: currency@, price: price@ }
            },
            DescribedAction::Spinoff => DescribedActionModel::Spinoff,
            DescribedAction::Split { from, to } => {
                DescribedActionModel::Split { from: from@, to: to@ }
            },
            DescribedAction::StockDividend => DescribedActionModel::StockDividend,
            DescribedAction::SubscribableRightsIssue => {
                DescribedActionModel::SubscribableRightsIssue
            },
        }
    }
}

impl View for Described {
    type V = DescribedModel;

    open spec fn view(&self) -> DescribedModel {
        DescribedModel {
            symbol: self.symbol@,
            other_symbol: self.other_symbol@,
            action: self.action@,
        }
    }
}

/// What the groups of `generic_pattern` say: nothing where one of them has no text or the action
/// is none of the four that the pattern lists.
pub open spec fn described_by_generic(groups: Seq<Option<Seq<char>>>) -> Option<DescribedModel> {
    if groups.len() != 5 {
        None
    } else {
        match (groups[0], groups[1], groups[2], groups[3], groups[4]) {
            (Some(symbol), Some(action), Some(to), Some(from), Some(other_symbol)) => {
                if action == "Spinoff"@ {
                    Some(
                        DescribedModel {
                            symbol,
                            other_symbol,
                            action: DescribedActionModel::Spinoff,
                        },
                    )
                } else if action == "Split"@ {
                    Some(
                        DescribedModel {
                            symbol,
                            other_symbol,
                            action: DescribedActionModel::Split { from, to },
                        },
                    )
                } else if action == "Stock Dividend"@ {
                    Some(
                        DescribedModel {
                            symbol,
                            other_symbol,
                            action: DescribedActionModel::StockDividend,
                        },
                    )
                } else if action == "Subscribable Rights Issue"@ {
                    Some(
                        DescribedModel {
                            symbol,
                            other_symbol,
                            action: DescribedActionModel::SubscribableRightsIssue,
                        },
                    )
                } else {
                    None
                }
            },
            _ => None,
        }
    }
}

/// What the groups of `liquidation_pattern` say: nothing where one of them has no text or the
/// action is not the one that the pattern lists.
pub open spec fn described_by_liquidation(groups: Seq<Option<Seq<char>>>) -> Option<
    DescribedModel,
> {
    if groups.len() != 5 {
        None
    } else {
        match (groups[0], groups[1], groups[2], groups[3], groups[4]) {
            (Some(symbol), Some(action), Some(currency), Some(price), Some(other_symbol)) => {
                if action == "Merged(Liquidation)"@ {
                    Some(
                        DescribedModel {
                            symbol,
                            other_symbol,
                            action: DescribedActionModel::Liquidation { currency, price },
                        },
                    )
                } else {
                    None
                }
            },
            _ => None,
        }
    }
}

/// What a description says: `generic_pattern` is tried first, then `liquidation_pattern`.
pub open spec fn described(description: Seq<char>) -> Result<
    Option<DescribedModel>,
    error::ErrorModel,
> {
    match pattern::regex_groups(generic_pattern(), description, generic_names()) {
        None => Err(error::ErrorModel::InvalidPattern(generic_pattern())),
        Some(Some(groups)) => Ok(described_by_generic(groups)),
        Some(None) => match pattern::regex_groups(
            liquidation_pattern(),
            description,
            liquidation_names(),
        ) {
            None => Err(error::ErrorModel::InvalidPattern(liquidation_pattern())),
            Some(Some(groups)) => Ok(described_by_liquidation(groups)),
            Some(None) => Ok(None),
        },
    }
}

/// The contents of a value, where there is one.
pub open spec fn optional_view<T: View>(value: Option<T>) -> Option<T::V> {
    match value {
        Some(value) => Some(value@),
        None => None,
    }
}

/// Takes the texts of five groups, where each has one.
fn take_five(groups: Vec<Option<String>>) -> (r: Option<(String, String, String, String, String)>)
    ensures
        r is Some <==> groups@.len() == 5 && forall|i: int| 0 <= i < 5 ==> groups@[i] is Some,
        r matches Some(texts) ==> groups@ == seq![
            Some(texts.0),
            Some(texts.1),
            Some(texts.2),
            Some(texts.3),
            Some(texts.4),
        ],
{
    let ghost all = groups@;
    let mut groups = groups;
    if groups.len() != 5 {
        return None;
    }
    let fifth = groups.pop();
    let fourth = groups.pop();
    let third = groups.pop();
    let second = groups.pop();
    let first = groups.pop();
    assert(fifth == Some(all[4]) && fourth == Some(all[3]) && third == Some(all[2]) && second
        == Some(all[1]) && first == Some(all[0]));
    match (first, second, third, fourth, fifth) {
        (Some(Some(a)), Some(Some(b)), Some(Some(c)), Some(Some(d)), Some(Some(e))) => Some(
            (a, b, c, d, e),
        ),
        _ => None,
    }
}

/// Reads the groups of `generic_pattern`.
pub fn describe_by_generic(groups: Vec<Option<String>>) -> (r: Option<Described>)
    ensures
        optional_view(r) == described_by_generic(pattern::group_contents(groups@)),
{
    match take_five(groups) {
        Some((symbol, action, to, from, other_symbol)) => {
            let action = if text::same_text(action.as_str(), "Spinoff") {
                DescribedAction::Spinoff
            } else if text::same_text(action.as_str(), "Split") {
                DescribedAction::Split { from, to }
            } else if text::same_text(action.as_str(), "Stock Dividend") {
                DescribedAction::StockDividend
            } else if text::same_text(action.as_str(), "Subscribable Rights Issue") {
                DescribedAction::SubscribableRightsIssue
            } else {
                return None;
            };
            Some(Described { symbol, other_symbol, action })
        },
        None => None,
    }
}

/// Reads the groups of `liquidation_pattern`.
pub fn describe_by_liquidation(groups: Vec<Option<String>>) -> (r: Option<Described>)
    ensures
        optional_view(r) == described_by_liquidation(pattern::group_contents(groups@)),
{
    match take_five(groups) {
        Some((symbol, action, currency, price, other_symbol)) => {
            if text::same_text(action.as_str(), "Merged(Liquidation)") {
                let action = DescribedAction::Liquidation { currency, price };
                Some(Described { symbol, other_symbol, action })
            } else {
                None
            }
        },
        None => None,
    }
}

/// Reads a description.
pub fn describe(description: &str) -> (r: Result<Option<Described>, StatementError>)
    ensures
        (match r {
            Ok(value) => Ok::<Option<DescribedModel>, error::ErrorModel>(optional_view(value)),
            Err(error) => Err(error@),
        }) == described(description@),
{
    let generic = build_generic_pattern();
    let mut names: Vec<&str> = Vec::new();
    names.push("symbol");
    names.push("action");
    names.push("to");
    names.push("from");
    names.push("other_symbol");
    assert(pattern::contents(names@) =~= generic_names());
    match pattern::find_groups(generic.as_str(), description, &names) {
        Ok(Some(groups)) => {
            return Ok(describe_by_generic(groups));
        },
        Ok(None) => {},
        Err(_) => {
            return Err(StatementError::InvalidPattern(generic));
        },
    }
    let liquidation = build_liquidation_pattern();
    let mut names: Vec<&str> = Vec::new();
    names.push("symbol");
    names.push("action");
    names.push("currency");
    names.push("price");
    names.push("other_symbol");
    assert(pattern::contents(names@) =~= liquidation_names());
    match pattern::find_groups(liquidation.as_str(), description, &names) {
        Ok(Some(groups)) => Ok(describe_by_liquidation(groups)),
        Ok(None) => Ok(None),
        Err(_) => Err(StatementError::InvalidPattern(liquidation)),
    }
}

/// The part of a record that does not depend on the kind of action.
#[derive(Debug, PartialEq, Eq)]
pub struct Header {
    pub time: DateTime,
    pub report_date: Date,
    pub description: String,
}

/// `Header` with its text as a sequence of characters.
pub ghost struct HeaderModel {
    pub time: DateTime,
    pub report_date: Date,
    pub description: Seq<char>,
}

impl View for Header {
    type V = HeaderModel;

    open spec fn view(&self) -> HeaderModel {
        HeaderModel {
            time: self.time,
            report_date: self.report_date,
            description: self.description@,
        }
    }
}

/// What the record says besides the kind of action. Only stocks are supported.
pub open spec fn header(record: Record) -> Result<HeaderModel, error::ErrorModel> {
    match (
        record.value("Asset Category"@),
        record.date_time("Date/Time"@),
        record.date("Report Date"@),
        record.value("Description"@),
    ) {
        (Err(error), _, _, _) => Err(error),
        (Ok(category), _, _, _) if category != "Stocks"@ => Err(
            error::ErrorModel::UnsupportedAssetCategory(category),
        ),
        (_, Err(error), _, _) => Err(error),
        (_, _, Err(error), _) => Err(error),
        (_, _, _, Err(error)) => Err(error),
        (_, Ok(time), Ok(report_date), Ok(description)) => Ok(
            HeaderModel { time, report_date, description: text::folded_spaces(description) },
        ),
    }
}

/// A liquidation: the shares that the record takes away were paid for at the price of the
/// description, in the currency of the record.
pub open spec fn liquidation_of(
    record: Record,
    price_currency: Seq<char>,
    price: Seq<char>,
) -> Result<corporate_actions::CorporateActionTypeModel, error::ErrorModel> {
    match (
        record.value("Currency"@),
        record.number("Proceeds"@, DecimalRestrictions::PositiveOrZero),
        record.number("Quantity"@, DecimalRestrictions::StrictlyNegative),
        decimal::restricted_decimal(price, DecimalRestrictions::PositiveOrZero),
    ) {
        (Err(error), _, _, _) => Err(error),
        (_, Err(error), _, _) => Err(error),
        (_, _, Err(error), _) => Err(error),
        (_, _, _, Err(error)) => Err(error),
        (Ok(currency), Ok(volume), Ok(change), Ok(price)) => {
            let quantity = change.opposite();
            if price_currency != currency {
                Err(error::ErrorModel::CurrencyMismatch { price_currency, currency })
            } else if !common::volume_is_expected(quantity, price, volume) {
                Err(error::ErrorModel::UnexpectedVolume { quantity, price, volume })
            } else {
                Ok(
                    corporate_actions::CorporateActionTypeModel::Liquidation {
                        quantity,
                        price,
                        volume,
                        currency,
                    },
                )
            }
        },
    }
}

/// A spinoff: the record adds shares with the other symbol.
pub open spec fn spinoff_of(record: Record, other_symbol: Seq<char>) -> Result<
    corporate_actions::CorporateActionTypeModel,
    error::ErrorModel,
> {
    match (
        record.number("Quantity"@, DecimalRestrictions::StrictlyPositive),
        record.value("Currency"@),
    ) {
        (Err(error), _) => Err(error),
        (_, Err(error)) => Err(error),
        (Ok(quantity), Ok(currency)) => Ok(
            corporate_actions::CorporateActionTypeModel::Spinoff {
                symbol: other_symbol,
                quantity,
                currency,
            },
        ),
    }
}

/// One record of a stock split: a gain of shares is a deposit, a loss is a withdrawal.
pub open spec fn split_of(record: Record, from: Seq<char>, to: Seq<char>) -> Result<
    corporate_actions::CorporateActionTypeModel,
    error::ErrorModel,
> {
    match (
        common::parsed_integer(from),
        common::parsed_integer(to),
        record.number("Quantity"@, DecimalRestrictions::NonZero),
    ) {
        (Err(error), _, _) => Err(error),
        (_, Err(error), _) => Err(error),
        (_, _, Err(error)) => Err(error),
        (Ok(from), Ok(to), Ok(change)) => Ok(
            corporate_actions::CorporateActionTypeModel::StockSplit {
                ratio: StockSplitRatio { from, to },
                withdrawal: if change.signed() < 0 {
                    Some(change.opposite())
                } else {
                    None
                },
                deposit: if change.signed() > 0 {
                    Some(change)
                } else {
                    None
                },
            },
        ),
    }
}

/// The action that a record stands for, by what its description says. `symbol` and `other_symbol`
/// are the symbols of the description.
pub open spec fn action_of(
    record: Record,
    description: Seq<char>,
    symbol: Seq<char>,
    other_symbol: Seq<char>,
    action: DescribedActionModel,
) -> Result<corporate_actions::CorporateActionTypeModel, error::ErrorModel> {
    match action {
        DescribedActionModel::Liquidation { currency, price } => if other_symbol != symbol {
            Err(error::ErrorModel::UnsupportedCorporateAction(description))
        } else {
            liquidation_of(record, currency, price)
        },
        DescribedActionModel::Spinoff => spinoff_of(record, other_symbol),
        DescribedActionModel::Split { from, to } => if other_symbol != symbol {
            Err(error::ErrorModel::UnsupportedCorporateAction(description))
        } else {
            split_of(record, from, to)
        },
        DescribedActionModel::StockDividend => match record.number(
            "Quantity"@,
            DecimalRestrictions::StrictlyPositive,
        ) {
            Ok(quantity) => Ok(
                corporate_actions::CorporateActionTypeModel::StockDividend {
                    stock: Some(other_symbol),
                    quantity,
                },
            ),
            Err(error) => Err(error),
        },
        DescribedActionModel::SubscribableRightsIssue => Ok(
            corporate_actions::CorporateActionTypeModel::SubscribableRightsIssue,
        ),
    }
}

/// What a record comes to, given what its description says.
pub open spec fn parsed_described(
    record: Record,
    header: HeaderModel,
    described: Option<DescribedModel>,
) -> Result<corporate_actions::CorporateActionModel, error::ErrorModel> {
    match described {
        None => Err(error::ErrorModel::UnsupportedCorporateAction(header.description)),
        Some(said) => match (
            common::parsed_symbol(said.symbol),
            common::parsed_symbol(said.other_symbol),
        ) {
            (Err(error), _) => Err(error),
            (_, Err(error)) => Err(error),
            (Ok(symbol), Ok(other_symbol)) => match action_of(
                record,
                header.description,
                symbol,
                other_symbol,
                said.action,
            ) {
                Err(error) => Err(error),
                Ok(action) => Ok(
                    corporate_actions::CorporateActionModel {
                        time: DateOptTime {
                            date: header.time.date,
                            time: Some(header.time.time),
                        },
                        report_date: Some(header.report_date),
                        symbol,
                        action,
                    },
                ),
            },
        },
    }
}

/// What a record comes to.
pub open spec fn parsed(record: Record) -> Result<
    corporate_actions::CorporateActionModel,
    error::ErrorModel,
> {
    match header(record) {
        Err(error) => Err(error),
        Ok(header) => match described(header.description) {
            Err(error) => Err(error),
            Ok(said) => parsed_described(record, header, said),
        },
    }
}

/// Reads what the record says besides the kind of action.
pub fn parse_header(record: &Record) -> (r: Result<Header, StatementError>)
    ensures
        error::outcome_view(r) == header(*record),
{
    let asset_category = record.get_value("Asset Category")?;
    if !text::same_text(asset_category, "Stocks") {
        return Err(StatementError::UnsupportedAssetCategory(asset_category.to_owned()));
    }
    let time = record.parse_date_time("Date/Time")?;
    let report_date = record.parse_date("Report Date")?;
    let description = text::fold_spaces(record.get_value("Description")?);
    Ok(Header { time, report_date, description })
}

fn parse_liquidation(record: &Record, price_currency: &str, price: &str) -> (r: Result<
    CorporateActionType,
    StatementError,
>)
    ensures
        error::outcome_view(r) == liquidation_of(*record, price_currency@, price@),
{
    let currency = record.get_value("Currency")?;
    let volume = record.parse_amount("Proceeds", DecimalRestrictions::PositiveOrZero)?;
    let quantity = record.parse_quantity(
        "Quantity",
        DecimalRestrictions::StrictlyNegative,
    )?.negate();
    let price = decimal::parse_decimal(price, DecimalRestrictions::PositiveOrZero)?;
    if !text::same_text(price_currency, currency) {
        return Err(
            StatementError::CurrencyMismatch {
                price_currency: price_currency.to_owned(),
                currency: currency.to_owned(),
            },
        );
    }
    common::check_volume(quantity, price, volume)?;
    Ok(CorporateActionType::Liquidation { quantity, price, volume, currency: currency.to_owned() })
}

fn parse_spinoff(record: &Record, other_symbol: String) -> (r: Result<
    CorporateActionType,
    StatementError,
>)
    ensures
        error::outcome_view(r) == spinoff_of(*record, other_symbol@),
{
    let quantity = record.parse_quantity("Quantity", DecimalRestrictions::StrictlyPositive)?;
    let currency = record.get_value("Currency")?.to_owned();
    Ok(CorporateActionType::Spinoff { symbol: other_symbol, quantity, currency })
}

fn parse_split(record: &Record, from: &str, to: &str) -> (r: Result<
    CorporateActionType,
    StatementError,
>)
    ensures
        error::outcome_view(r) == split_of(*record, from@, to@),
{
    let from: u32 = common::parse_integer(from)?;
    let to: u32 = common::parse_integer(to)?;
    let ratio = StockSplitRatio::new(from, to);
    let change = record.parse_quantity("Quantity", DecimalRestrictions::NonZero)?;
    let (withdrawal, deposit) = if change.is_sign_positive() {
        (None, Some(change))
    } else {
        (Some(change.negate()), None)
    };
    Ok(CorporateActionType::StockSplit { ratio, withdrawal, deposit })
}

/// Reads a record, given what its description says.
pub fn parse_described(record: &Record, header: &Header, described: Option<Described>) -> (r:
    Result<CorporateAction, StatementError>)
    ensures
        error::outcome_view(r) == parsed_described(*record, header@, optional_view(described)),
{
    let said = match described {
        Some(said) => said,
        None => {
            return Err(
                StatementError::UnsupportedCorporateAction(header.description.clone()),
            );
        },
    };
    let symbol = common::parse_symbol(said.symbol.as_str())?;
    let other_symbol = common::parse_symbol(said.other_symbol.as_str())?;
    let action = match said.action {
        DescribedAction::Liquidation { currency, price } => {
            if other_symbol != symbol {
                return Err(
                    StatementError::UnsupportedCorporateAction(header.description.clone()),
                );
            }
            parse_liquidation(record, currency.as_str(), price.as_str())?
        },
        DescribedAction::Spinoff => parse_spinoff(record, other_symbol)?,
        DescribedAction::Split { from, to } => {
            if other_symbol != symbol {
                return Err(
                    StatementError::UnsupportedCorporateAction(header.description.clone()),
                );
            }
            parse_split(record, from.as_str(), to.as_str())?
        },
        DescribedAction::StockDividend => {
            let quantity = record.parse_quantity(
                "Quantity",
                DecimalRestrictions::StrictlyPositive,
            )?;
            CorporateActionType::StockDividend { stock: Some(other_symbol), quantity }
        },
        DescribedAction::SubscribableRightsIssue => CorporateActionType::SubscribableRightsIssue,
    };
    Ok(
        CorporateAction {
            time: header.time.to_date_opt_time(),
            report_date: Some(header.report_date),
            symbol,
            action,
        },
    )
}

/// Reads a record.
pub fn parse(record: &Record) -> (r: Result<CorporateAction, StatementError>)
    ensures
        error::outcome_view(r) == parsed(*record),
{
    let header = parse_header(record)?;
    let said = describe(header.description.as_str())?;
    parse_described(record, &header, said)
}

/// The two records of a complex stock split: one withdraws shares, the other deposits shares, in
/// either order, at the same ratio.
pub open spec fn joined_split(first: CorporateActionType, second: CorporateActionType) -> Option<
    CorporateActionType,
> {
    match (first, second) {
        (
            CorporateActionType::StockSplit { ratio, withdrawal, deposit },
            CorporateActionType::StockSplit {
                ratio: second_ratio,
                withdrawal: second_withdrawal,
                deposit: second_deposit,
            },
        ) => {
            if ratio == second_ratio && (withdrawal is Some) != (deposit is Some) && (
            second_withdrawal is Some) == (deposit is Some) && (second_deposit is Some) == (
            withdrawal is Some) {
                Some(
                    CorporateActionType::StockSplit {
                        ratio,
                        withdrawal: if withdrawal is Some {
                            withdrawal
                        } else {
                            second_withdrawal
                        },
                        deposit: if deposit is Some {
                            deposit
                        } else {
                            second_deposit
                        },
                    },
                )
            } else {
                None
            }
        },
        _ => None,
    }
}

/// What the records of one stock split come to.
pub open spec fn joined(actions: Seq<CorporateAction>) -> Result<
    CorporateAction,
    error::ErrorModel,
> {
    if actions.len() == 1 {
        Ok(actions[0])
    } else if actions.len() == 2 && joined_split(actions[0].action, actions[1].action) is Some {
        Ok(
            CorporateAction {
                action: joined_split(actions[0].action, actions[1].action)->0,
                ..actions[0]
            },
        )
    } else {
        Err(
            error::ErrorModel::UnsupportedStockSplit {
                symbol: actions[0].symbol@,
                date: actions[0].time.date,
            },
        )
    }
}

/// Joins the records of one stock split.
pub fn join_stock_splits(actions: Vec<CorporateAction>) -> (r: Result<
    CorporateAction,
    StatementError,
>)
    requires
        actions@.len() > 0,
    ensures
        error::outcome(r) == joined(actions@),
{
    let ghost all = actions@;
    let mut actions = actions;
    if actions.len() > 2 {
        return Err(
            StatementError::UnsupportedStockSplit {
                symbol: actions[0].symbol.clone(),
                date: actions[0].time.date,
            },
        );
    }
    let last = actions.pop().unwrap();
    let mut action = match actions.pop() {
        // Simple stock split
        None => {
            return Ok(last);
        },
        Some(action) => action,
    };
    assert(action == all[0] && last == all[1]);
    // Complex stock splits are represented by two records, which may have an arbitrary order
    let (ratio, withdrawal, deposit) = match (&action.action, &last.action) {
        (
            CorporateActionType::StockSplit {
                ratio: first_ratio,
                withdrawal: Some(withdrawal),
                deposit: None,
            },
            CorporateActionType::StockSplit {
                ratio: second_ratio,
                withdrawal: None,
                deposit: Some(deposit),
            },
        ) if *first_ratio == *second_ratio => (*first_ratio, *withdrawal, *deposit),
        (
            CorporateActionType::StockSplit {
                ratio: first_ratio,
                withdrawal: None,
                deposit: Some(deposit),
            },
            CorporateActionType::StockSplit {
                ratio: second_ratio,
                withdrawal: Some(withdrawal),
                deposit: None,
            },
        ) if *first_ratio == *second_ratio => (*first_ratio, *withdrawal, *deposit),
        _ => {
            return Err(
                StatementError::UnsupportedStockSplit {
                    symbol: action.symbol,
                    date: action.time.date,
                },
            );
        },
    };
    action.action = CorporateActionType::StockSplit {
        ratio,
        withdrawal: Some(withdrawal),
        deposit: Some(deposit),
    };
    Ok(action)
}

pub open spec fn is_stock_split(action: CorporateAction) -> bool {
    action.action is StockSplit
}

/// Whether two records are of one stock split.
pub open spec fn same_split(a: CorporateAction, b: CorporateAction) -> bool {
    a.time == b.time && a.symbol@ == b.symbol@
}

/// How far the actions of a report have got: the actions that are finished, the records of a stock
/// split that others may follow, and the error that ended it.
pub ghost struct Progress {
    pub done: Seq<CorporateAction>,
    pub pending: Seq<CorporateAction>,
    pub failure: Option<error::ErrorModel>,
}

impl Progress {
    /// Joins the pending records.
    pub open spec fn flush(self) -> Progress {
        if self.failure is Some || self.pending.len() == 0 {
            self
        } else {
            match joined(self.pending) {
                Ok(action) => Progress {
                    done: self.done.push(action),
                    pending: Seq::empty(),
                    failure: None,
                },
                Err(error) => Progress { failure: Some(error), ..self },
            }
        }
    }

    /// Takes one more action. A record of the pending stock split joins it, a record of another
    /// one ends it; other actions pass by.
    pub open spec fn take(self, action: CorporateAction) -> Progress {
        if self.failure is Some {
            self
        } else if !is_stock_split(action) {
            Progress { done: self.done.push(action), ..self }
        } else if self.pending.len() > 0 && same_split(action, self.pending.last()) {
            Progress { pending: self.pending.push(action), ..self }
        } else {
            let flushed = self.flush();
            if flushed.failure is Some {
                flushed
            } else {
                Progress { pending: seq![action], ..flushed }
            }
        }
    }
}

/// How far the actions get one after the other.
pub open spec fn progress(actions: Seq<CorporateAction>) -> Progress
    decreases actions.len(),
{
    if actions.len() == 0 {
        Progress { done: Seq::empty(), pending: Seq::empty(), failure: None }
    } else {
        progress(actions.drop_last()).take(actions.last())
    }
}

/// What the actions of a report come to.
pub open spec fn committed(actions: Seq<CorporateAction>) -> Progress {
    progress(actions).flush()
}

proof fn lemma_progress_failure(actions: Seq<CorporateAction>, i: int)
    requires
        0 <= i <= actions.len(),
        progress(actions.take(i)).failure is Some,
    ensures
        progress(actions) == progress(actions.take(i)),
    decreases actions.len() - i,
{
    if i < actions.len() {
        assert(actions.take(i + 1).drop_last() =~= actions.take(i));
        lemma_progress_failure(actions, i + 1);
    } else {
        assert(actions.take(i) =~= actions);
    }
}

/// The action that a record of the section lists, if any: there is none where the record only
/// supplements another one.
pub open spec fn listed_action(record: Record) -> Result<
    Option<corporate_actions::CorporateActionModel>,
    error::ErrorModel,
> {
    match record.value("Report Date"@) {
        Err(error) => Err(error),
        Ok(value) if value == "Closed Lot:"@ => Ok(None),
        Ok(_) => match parsed(record) {
            Err(error) => Err(error),
            Ok(action) => Ok(Some(action)),
        },
    }
}

/// Reads the corporate actions of a report.
pub struct CorporateActionsParser {
    corporate_actions: Vec<CorporateAction>,
}

impl View for CorporateActionsParser {
    type V = Seq<CorporateAction>;

    /// The actions that were read.
    closed spec fn view(&self) -> Seq<CorporateAction> {
        self.corporate_actions@
    }
}

impl CorporateActionsParser {
    pub fn new() -> (r: CorporateActionsParser)
        ensures
            r@ == Seq::<CorporateAction>::empty(),
    {
        CorporateActionsParser { corporate_actions: Vec::new() }
    }

    /// Whether the totals of the section are left out.
    pub fn skip_totals(&self) -> (r: bool)
        ensures
            r,
    {
        true
    }

    /// Reads a record. Records that only supplement others, as those of delistings and
    /// liquidations do, are left out.
    pub fn parse(&mut self, _parser: &mut StatementParser, record: &Record) -> (r: Result<
        (),
        StatementError,
    >)
        ensures
            *final(_parser) == *old(_parser),
            r is Ok <==> listed_action(*record) is Ok,
            r matches Err(error) ==> listed_action(*record) == Err::<
                Option<corporate_actions::CorporateActionModel>,
                error::ErrorModel,
            >(error@),
            match listed_action(*record) {
                Ok(Some(action)) => {
                    &&& final(self)@.len() == old(self)@.len() + 1
                    &&& final(self)@.drop_last() == old(self)@
                    &&& final(self)@.last()@ == action
                },
                _ => final(self)@ == old(self)@,
            },
    {
        if text::same_text(record.get_value("Report Date")?, "Closed Lot:") {
            return Ok(());
        }
        self.corporate_actions.push(parse(record)?);
        assert(self.corporate_actions@.drop_last() =~= old(self)@);
        Ok(())
    }

    /// Hands the actions over to the statement.
    pub fn commit(self, parser: &mut StatementParser) -> (r: Result<(), StatementError>)
        ensures
            final(parser).statement.corporate_actions@
                == old(parser).statement.corporate_actions@ + committed(self@).done,
            r is Ok <==> committed(self@).failure is None,
            r matches Err(error) ==> committed(self@).failure == Some(error@),
            final(parser).statement == (crate::broker_statement::BrokerStatement {
                corporate_actions: final(parser).statement.corporate_actions,
                ..old(parser).statement
            }),
    {
        let ghost actions = self@;
        let ghost before = parser.statement;
        // The records of a stock split are collected until those of another one come.
        let mut stock_splits: Vec<CorporateAction> = Vec::new();
        for action in iter: self.corporate_actions
            invariant
                iter.seq() == actions,
                actions == self@,
                before == old(parser).statement,
                progress(actions.take(iter.index() as int)) == (Progress {
                    done: progress(actions.take(iter.index() as int)).done,
                    pending: stock_splits@,
                    failure: None,
                }),
                parser.statement.corporate_actions@ == before.corporate_actions@ + progress(
                    actions.take(iter.index() as int),
                ).done,
                parser.statement == (crate::broker_statement::BrokerStatement {
                    corporate_actions: parser.statement.corporate_actions,
                    ..before
                }),
        {
            let ghost i = iter.index() as int;
            assert(actions.take(i + 1).drop_last() =~= actions.take(i));
            let is_split: bool = match action.action {
                CorporateActionType::StockSplit { .. } => true,
                _ => false,
            };
            if !is_split {
                parser.statement.corporate_actions.push(action);
            } else {
                let same: bool = match stock_splits.last() {
                    Some(last) => action.time == last.time && action.symbol == last.symbol,
                    None => true,
                };
                let ghost taken = action;
                if same {
                    stock_splits.push(action);
                    assert(stock_splits@.len() == 1 ==> stock_splits@ =~= seq![taken]);
                } else {
                    match join_stock_splits(stock_splits) {
                        Ok(split) => {
                            parser.statement.corporate_actions.push(split);
                        },
                        Err(error) => {
                            proof {
                                lemma_progress_failure(actions, i + 1);
                            }
                            return Err(error);
                        },
                    }
                    stock_splits = Vec::new();
                    stock_splits.push(action);
                    assert(stock_splits@ =~= seq![taken]);
                }
            }
        }
        assert(actions.take(actions.len() as int) =~= actions);
        if !stock_splits.is_empty() {
            parser.statement.corporate_actions.push(join_stock_splits(stock_splits)?);
        }
        Ok(())
    }
}

} // verus!

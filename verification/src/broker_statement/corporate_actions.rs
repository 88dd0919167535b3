//! Corporate actions of the issuers of securities.

use vstd::prelude::*;

use crate::decimal::Decimal;
use crate::time::{Date, DateOptTime};

verus! {

/// A stock split that makes `to` shares of each `from` shares.
#[derive(Debug, Clone, Copy, PartialEq, Eq, Structural)]
pub struct StockSplitRatio {
    pub from: u32,
    pub to: u32,
}

impl StockSplitRatio {
    pub fn new(from: u32, to: u32) -> (r: StockSplitRatio)
        ensures
            r == (StockSplitRatio { from, to }),
    {
        StockSplitRatio { from, to }
    }
}

#[derive(Debug, PartialEq, Eq)]
pub enum CorporateActionType {
    /// The shares were taken away for money.
    Liquidation { quantity: Decimal, price: Decimal, volume: Decimal, currency: String },
    /// Shares of another company were handed out.
    Spinoff { symbol: String, quantity: Decimal, currency: String },
    StockDividend { stock: Option<String>, quantity: Decimal },
    /// The number of shares changed: some were withdrawn, some were deposited.
    StockSplit { ratio: StockSplitRatio, withdrawal: Option<Decimal>, deposit: Option<Decimal> },
    SubscribableRightsIssue,
}

#[derive(Debug, PartialEq, Eq)]
pub struct CorporateAction {
    pub time: DateOptTime,
    pub report_date: Option<Date>,
    pub symbol: String,
    pub action: CorporateActionType,
}

/// The kind of a corporate action with its texts as sequences of characters.
pub ghost enum CorporateActionTypeModel {
    Liquidation { quantity: Decimal, price: Decimal, volume: Decimal, currency: Seq<char> },
    Spinoff { symbol: Seq<char>, quantity: Decimal, currency: Seq<char> },
    StockDividend { stock: Option<Seq<char>>, quantity: Decimal },
    StockSplit { ratio: StockSplitRatio, withdrawal: Option<Decimal>, deposit: Option<Decimal> },
    SubscribableRightsIssue,
}

/// A corporate action with its texts as sequences of characters.
pub ghost struct CorporateActionModel {
    pub time: DateOptTime,
    pub report_date: Option<Date>,
    pub symbol: Seq<char>,
    pub action: CorporateActionTypeModel,
}

impl View for CorporateActionType {
    type V = CorporateActionTypeModel;

    open spec fn view(&self) -> CorporateActionTypeModel {
        match self {
            CorporateActionType::Liquidation { quantity, price, volume, currency } => {
                CorporateActionTypeModel::Liquidation {
                    quantity: *quantity,
                    price: *price,
                    volume: *volume,
                    currency: currency@,
                }
            },
            CorporateActionType::Spinoff { symbol, quantity, currency } => {
                CorporateActionTypeModel::Spinoff {
                    symbol: symbol@,
                    quantity: *quantity,
                    currency: currency@,
                }
            },
            CorporateActionType::StockDividend { stock, quantity } => {
                CorporateActionTypeModel::StockDividend {
                    stock: match stock {
                        Some(symbol) => Some(symbol@),
                        None => None,
                    },
                    quantity: *quantity,
                }
            },
            CorporateActionType::StockSplit { ratio, withdrawal, deposit } => {
                CorporateActionTypeModel::StockSplit {
                    ratio: *ratio,
                    withdrawal: *withdrawal,
                    deposit: *deposit,
                }
            },
            CorporateActionType::SubscribableRightsIssue => {
                CorporateActionTypeModel::SubscribableRightsIssue
            },
        }
    }
}

impl View for CorporateAction {
    type V = CorporateActionModel;

    open spec fn view(&self) -> CorporateActionModel {
        CorporateActionModel {
            time: self.time,
            report_date: self.report_date,
            symbol: self.symbol@,
            action: self.action@,
        }
    }
}

} // verus!

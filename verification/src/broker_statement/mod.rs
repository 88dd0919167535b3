//! Brokerage statements.

use vstd::prelude::*;

use crate::currency::{Cash, CashAssets};
use crate::decimal::Decimal;
use crate::text;
use crate::time::{Date, DateOptTime};

use self::corporate_actions::CorporateAction;

pub mod corporate_actions;
pub mod ib;
pub mod laws;

verus! {

/// An exchange of one currency for another.
pub struct ForexTrade {
    pub from: Cash,
    pub to: Cash,
    pub commission: Cash,
    pub conclusion_time: DateOptTime,
}

/// Where bought shares came from.
pub enum StockSource {
    Trade { price: Cash, volume: Cash, commission: Cash },
    CorporateAction,
    Grant,
}

pub struct StockBuy {
    pub type_: StockSource,
    pub original_symbol: String,
    pub quantity: Decimal,
    pub conclusion_time: DateOptTime,
}

/// Where sold shares went to.
pub enum StockSellType {
    Trade { price: Cash, volume: Cash, commission: Cash },
    CorporateAction,
}

pub struct StockSell {
    pub type_: StockSellType,
    pub original_symbol: String,
    pub quantity: Decimal,
    pub conclusion_time: DateOptTime,
}

pub struct Dividend {
    pub date: Date,
    pub original_issuer: String,
    pub amount: Cash,
    pub paid_tax: Cash,
    /// Whether the statement lists the money among its cash flows.
    pub skip_from_cash_flow: bool,
}

/// Money that was withheld, or given back.
#[derive(Clone, Copy)]
pub enum Withholding {
    Withholding(Cash),
    Refund(Cash),
}

impl Withholding {
    /// The money that was withheld: what was given back counts with the other sign.
    pub open spec fn withheld(self) -> Cash {
        match self {
            Withholding::Withholding(amount) => amount,
            Withholding::Refund(amount) => amount.opposite(),
        }
    }

    /// The money that was withheld: what was given back counts with the other sign.
    pub fn withholding(self) -> (r: Cash)
        ensures
            r == self.withheld(),
    {
        match self {
            Withholding::Withholding(amount) => amount,
            Withholding::Refund(amount) => amount.negate(),
        }
    }
}

pub struct Fee {
    pub date: Date,
    pub amount: Withholding,
    pub description: String,
}

impl Fee {
    /// What the fee is for.
    pub fn local_description(&self) -> (r: &str)
        ensures
            r@ == self.description@,
    {
        self.description.as_str()
    }
}

pub struct IdleCashInterest {
    pub date: Date,
    pub amount: Cash,
}

pub struct CashGrant {
    pub date: Date,
    pub amount: Cash,
    pub description: String,
}

pub struct TaxAgentWithholding {
    pub date: Date,
    pub year: i32,
    pub amount: Withholding,
}

/// What money was paid for.
pub enum CashFlowType {
    /// The dividend of the date.
    Dividend { date: Date, issuer: String },
    /// The tax on the dividend of the date.
    Tax { date: Date, issuer: String },
    Repo { symbol: String, commission: Cash },
}

/// A payment that the statement lists.
pub struct CashFlow {
    pub date: DateOptTime,
    pub amount: Cash,
    pub type_: CashFlowType,
}

impl CashFlow {
    pub fn new(date: DateOptTime, amount: Cash, type_: CashFlowType) -> (r: CashFlow)
        ensures
            r == (CashFlow { date, amount, type_ }),
    {
        CashFlow { date, amount, type_ }
    }
}

/// The name of an instrument.
pub struct InstrumentName {
    pub symbol: String,
    pub name: String,
}

/// The names of the instruments of a statement.
pub struct InstrumentInfo {
    pub names: Vec<InstrumentName>,
}

/// The name that stands first for the symbol, and the symbol itself where none does.
pub open spec fn instrument_name(names: Seq<InstrumentName>, symbol: Seq<char>) -> Seq<char>
    decreases names.len(),
{
    if names.len() == 0 {
        symbol
    } else if names[0].symbol@ == symbol {
        names[0].name@
    } else {
        instrument_name(names.drop_first(), symbol)
    }
}

impl InstrumentInfo {
    /// The name of an instrument: its symbol where it has no other.
    pub fn get_name(&self, symbol: &str) -> (r: String)
        ensures
            r@ == instrument_name(self.names@, symbol@),
    {
        let mut i: usize = 0;
        assert(self.names@.skip(0) =~= self.names@);
        while i < self.names.len()
            invariant
                i <= self.names@.len(),
                instrument_name(self.names@, symbol@) == instrument_name(
                    self.names@.skip(i as int),
                    symbol@,
                ),
            decreases self.names.len() - i,
        {
            assert(self.names@.skip(i as int).drop_first() =~= self.names@.skip(i + 1));
            if text::same_text(self.names[i].symbol.as_str(), symbol) {
                return self.names[i].name.clone();
            }
            i = i + 1;
        }
        symbol.to_owned()
    }
}

/// What a broker reports of an account.
pub struct BrokerStatement {
    pub deposits_and_withdrawals: Vec<CashAssets>,
    pub idle_cash_interest: Vec<IdleCashInterest>,
    pub dividends: Vec<Dividend>,
    pub cash_grants: Vec<CashGrant>,
    pub cash_flows: Vec<CashFlow>,
    pub forex_trades: Vec<ForexTrade>,
    pub stock_sells: Vec<StockSell>,
    pub stock_buys: Vec<StockBuy>,
    pub fees: Vec<Fee>,
    pub tax_agent_withholdings: Vec<TaxAgentWithholding>,
    pub corporate_actions: Vec<CorporateAction>,
    pub instrument_info: InstrumentInfo,
}

} // verus!

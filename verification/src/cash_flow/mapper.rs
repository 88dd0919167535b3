//! Lists what a statement says of the money of an account.

use vstd::prelude::*;

use crate::broker_statement::{
    BrokerStatement, CashFlow as CashFlowDetails, CashFlowType, CashGrant, Dividend, Fee,
    ForexTrade, IdleCashInterest, InstrumentInfo, InstrumentName, StockBuy, StockSell, StockSellType,
    StockSource, TaxAgentWithholding, Withholding,
};
use crate::broker_statement;
use crate::cash_flow::{laws, order, order_laws};
use crate::currency::{Cash, CashAssets};
use crate::formatting;
use crate::text;
use crate::time::{Date, DateOptTime};
use crate::time_laws;

verus! {

/// What money was moved for, in the order in which the movements of one moment are listed.
#[derive(Debug, Clone, Copy, PartialEq, Eq, PartialOrd, Ord, Structural)]
pub enum Operation {
    Deposit,
    Interest,
    Dividend,
    Grant,
    ForexTrade,
    SellTrade,
    BuyTrade,
    RepoDeal,
    Commission,
    Fee,
    Tax,
    Withdrawal,
}

/// A movement of money.
#[derive(Debug, PartialEq, Eq)]
pub struct CashFlow {
    pub time: DateOptTime,
    pub operation: Operation,
    pub amount: Cash,
    /// What came in for the amount of a currency exchange.
    pub sibling_amount: Option<Cash>,
    pub description: String,
}

/// `CashFlow` with its text as a sequence of characters.
pub ghost struct CashFlowModel {
    pub time: DateOptTime,
    pub operation: Operation,
    pub amount: Cash,
    pub sibling_amount: Option<Cash>,
    pub description: Seq<char>,
}

impl View for CashFlow {
    type V = CashFlowModel;

    open spec fn view(&self) -> CashFlowModel {
        CashFlowModel {
            time: self.time,
            operation: self.operation,
            amount: self.amount,
            sibling_amount: self.sibling_amount,
            description: self.description@,
        }
    }
}

/// The contents of cash flows.
pub open spec fn models(flows: Seq<CashFlow>) -> Seq<CashFlowModel> {
    Seq::new(flows.len(), |i: int| flows[i]@)
}

/// A movement of money in one currency.
pub open spec fn flow(
    time: DateOptTime,
    operation: Operation,
    amount: Cash,
    description: Seq<char>,
) -> CashFlowModel {
    CashFlowModel { time, operation, amount, sibling_amount: None, description }
}

/// The moment of a date at an unknown time.
pub open spec fn on_date(date: Date) -> DateOptTime {
    DateOptTime { date, time: None }
}

/// What a commission adds: nothing where it is zero.
pub open spec fn commission_flows(
    time: DateOptTime,
    commission: Cash,
    description: Seq<char>,
) -> Seq<CashFlowModel> {
    if commission.amount.signed() == 0 {
        Seq::empty()
    } else {
        seq![flow(time, Operation::Commission, commission.opposite(), description)]
    }
}

/// Money that was put in, or taken out where it is not positive.
pub open spec fn deposit_or_withdrawal_flows(assets: CashAssets) -> Seq<CashFlowModel> {
    seq![
        if assets.cash.amount.signed() > 0 {
            flow(
                on_date(assets.date),
                Operation::Deposit,
                assets.cash,
                "Ввод денежных средств"@,
            )
        } else {
            flow(
                on_date(assets.date),
                Operation::Withdrawal,
                assets.cash,
                "Вывод денежных средств"@,
            )
        },
    ]
}

/// Interest comes in.
pub open spec fn interest_flows(interest: IdleCashInterest) -> Seq<CashFlowModel> {
    seq![
        flow(
            on_date(interest.date),
            Operation::Interest,
            interest.amount,
            "Проценты на остаток по счету"@,
        ),
    ]
}

/// A grant comes in, under its own description.
pub open spec fn grant_flows(grant: CashGrant) -> Seq<CashFlowModel> {
    seq![flow(on_date(grant.date), Operation::Grant, grant.amount, grant.description@)]
}

/// A fee goes out, and comes in where it was given back.
pub open spec fn fee_flows(fee: Fee) -> Seq<CashFlowModel> {
    seq![
        flow(
            on_date(fee.date),
            Operation::Fee,
            fee.amount.withheld().opposite(),
            fee.description@,
        ),
    ]
}

/// `from -> to`
pub open spec fn conversion(trade: ForexTrade) -> Seq<char> {
    trade.from.notation() + " -> "@ + trade.to.notation()
}

/// What was given goes out, what was got for it stands beside it.
pub open spec fn forex_trade_flows(trade: ForexTrade) -> Seq<CashFlowModel> {
    seq![
        CashFlowModel {
            sibling_amount: Some(trade.to),
            ..flow(
                trade.conclusion_time,
                Operation::ForexTrade,
                trade.from.opposite(),
                "Конвертация "@ + conversion(trade),
            )
        },
    ] + commission_flows(
        trade.conclusion_time,
        trade.commission,
        "Комиссия за конвертацию "@ + conversion(trade),
    )
}

/// The price of bought shares goes out. Shares that were not traded cost nothing.
pub open spec fn stock_buy_flows(name: Seq<char>, trade: StockBuy) -> Seq<CashFlowModel> {
    match trade.type_ {
        StockSource::Trade { volume, commission, .. } => seq![
            flow(
                trade.conclusion_time,
                Operation::BuyTrade,
                volume.opposite(),
                "Покупка "@ + trade.quantity.notation() + " "@ + name,
            ),
        ] + commission_flows(
            trade.conclusion_time,
            commission,
            "Комиссия за покупку "@ + trade.quantity.notation() + " "@ + name,
        ),
        StockSource::CorporateAction | StockSource::Grant => Seq::empty(),
    }
}

/// The price of sold shares comes in, where there is one. Shares that were not traded bring
/// nothing.
pub open spec fn stock_sell_flows(name: Seq<char>, trade: StockSell) -> Seq<CashFlowModel> {
    match trade.type_ {
        StockSellType::Trade { volume, commission, .. } => (if volume.amount.signed() == 0 {
            Seq::empty()
        } else {
            seq![
                flow(
                    trade.conclusion_time,
                    Operation::SellTrade,
                    volume,
                    "Продажа "@ + trade.quantity.notation() + " "@ + name,
                ),
            ]
        }) + commission_flows(
            trade.conclusion_time,
            commission,
            "Комиссия за продажу "@ + trade.quantity.notation() + " "@ + name,
        ),
        StockSellType::CorporateAction => Seq::empty(),
    }
}

/// The name of an issuer, with the date of its dividend where the money moved on another one.
pub open spec fn dividend_name(
    names: Seq<InstrumentName>,
    issuer: Seq<char>,
    date: Date,
    dividend_date: Date,
) -> Seq<char> {
    let name = broker_statement::instrument_name(names, issuer);
    if date != dividend_date {
        name + " от "@ + formatting::date_text(dividend_date)
    } else {
        name
    }
}

/// A dividend that came in, or was taken back where the amount is not positive.
pub open spec fn dividend_payment(
    date: DateOptTime,
    amount: Cash,
    name: Seq<char>,
) -> CashFlowModel {
    flow(
        date,
        Operation::Dividend,
        amount,
        if amount.amount.signed() > 0 {
            "Дивиденд от "@ + name
        } else {
            "Возврат дивиденда от "@ + name
        },
    )
}

/// The tax on a dividend that was withheld, or given back where the amount is positive.
pub open spec fn tax_payment(date: DateOptTime, amount: Cash, name: Seq<char>) -> CashFlowModel {
    flow(
        date,
        Operation::Dividend,
        amount,
        if amount.amount.signed() > 0 {
            "Возврат налога, удержанного с дивиденда от "@ + name
        } else {
            "Налог, удержанный с дивиденда от "@ + name
        },
    )
}

/// A payment that the statement lists: a dividend, the tax on one, or a repurchase deal with its
/// commission.
pub open spec fn cash_flow_flows(names: Seq<InstrumentName>, payment: CashFlowDetails) -> Seq<
    CashFlowModel,
> {
    match payment.type_ {
        CashFlowType::Dividend { date, issuer } => seq![
            dividend_payment(
                payment.date,
                payment.amount,
                dividend_name(names, issuer@, payment.date.date, date),
            ),
        ],
        CashFlowType::Tax { date, issuer } => seq![
            tax_payment(
                payment.date,
                payment.amount,
                dividend_name(names, issuer@, payment.date.date, date),
            ),
        ],
        CashFlowType::Repo { symbol, commission } => {
            let name = broker_statement::instrument_name(names, symbol@);
            seq![
                flow(
                    payment.date,
                    Operation::RepoDeal,
                    payment.amount,
                    "Сделка РЕПО с "@ + name,
                ),
            ] + commission_flows(
                payment.date,
                commission,
                "Комиссия за заключение сделки РЕПО с "@ + name,
            )
        },
    }
}

/// A dividend comes in, and the tax on it goes out, where there is one.
pub open spec fn dividend_flows(names: Seq<InstrumentName>, dividend: Dividend) -> Seq<
    CashFlowModel,
> {
    let name = broker_statement::instrument_name(names, dividend.original_issuer@);
    let date = on_date(dividend.date);
    if dividend.skip_from_cash_flow {
        Seq::empty()
    } else if dividend.paid_tax.amount.signed() == 0 {
        seq![dividend_payment(date, dividend.amount, name)]
    } else {
        seq![
            dividend_payment(date, dividend.amount, name),
            tax_payment(date, dividend.paid_tax.opposite(), name),
        ]
    }
}

/// An integer in decimal notation.
pub open spec fn integer_notation(n: int) -> Seq<char> {
    if n < 0 {
        seq!['-'] + text::number_digits((-n) as nat)
    } else {
        text::number_digits(n as nat)
    }
}

/// A withheld tax goes out, and comes in where it was given back.
pub open spec fn tax_agent_withholding_flows(tax: TaxAgentWithholding) -> Seq<CashFlowModel> {
    let operation = match tax.amount {
        Withholding::Withholding(_) => "Удержание"@,
        Withholding::Refund(_) => "Возврат"@,
    };
    seq![
        flow(
            on_date(tax.date),
            Operation::Tax,
            tax.amount.withheld().opposite(),
            operation + " налога за "@ + integer_notation(tax.year as int) + " год"@,
        ),
    ]
}

/// What the items come to one after the other.
pub open spec fn flattened<T>(items: Seq<T>, flows: spec_fn(T) -> Seq<CashFlowModel>) -> Seq<
    CashFlowModel,
>
    decreases items.len(),
{
    if items.len() == 0 {
        Seq::empty()
    } else {
        flattened(items.drop_last(), flows) + flows(items.last())
    }
}

// The functions from one item to its cash flows, one for each kind of items.

pub open spec fn deposit_or_withdrawal_rule() -> spec_fn(CashAssets) -> Seq<CashFlowModel> {
    |assets: CashAssets| deposit_or_withdrawal_flows(assets)
}

pub open spec fn interest_rule() -> spec_fn(IdleCashInterest) -> Seq<CashFlowModel> {
    |interest: IdleCashInterest| interest_flows(interest)
}

pub open spec fn dividend_rule(names: Seq<InstrumentName>) -> spec_fn(Dividend) -> Seq<
    CashFlowModel,
> {
    |dividend: Dividend| dividend_flows(names, dividend)
}

pub open spec fn grant_rule() -> spec_fn(CashGrant) -> Seq<CashFlowModel> {
    |grant: CashGrant| grant_flows(grant)
}

pub open spec fn cash_flow_rule(names: Seq<InstrumentName>) -> spec_fn(CashFlowDetails) -> Seq<
    CashFlowModel,
> {
    |payment: CashFlowDetails| cash_flow_flows(names, payment)
}

pub open spec fn forex_trade_rule() -> spec_fn(ForexTrade) -> Seq<CashFlowModel> {
    |trade: ForexTrade| forex_trade_flows(trade)
}

pub open spec fn stock_sell_rule(names: Seq<InstrumentName>) -> spec_fn(StockSell) -> Seq<
    CashFlowModel,
> {
    |trade: StockSell|
        stock_sell_flows(broker_statement::instrument_name(names, trade.original_symbol@), trade)
}

pub open spec fn stock_buy_rule(names: Seq<InstrumentName>) -> spec_fn(StockBuy) -> Seq<
    CashFlowModel,
> {
    |trade: StockBuy|
        stock_buy_flows(broker_statement::instrument_name(names, trade.original_symbol@), trade)
}

pub open spec fn fee_rule() -> spec_fn(Fee) -> Seq<CashFlowModel> {
    |fee: Fee| fee_flows(fee)
}

pub open spec fn tax_agent_withholding_rule() -> spec_fn(TaxAgentWithholding) -> Seq<
    CashFlowModel,
> {
    |tax: TaxAgentWithholding| tax_agent_withholding_flows(tax)
}

/// The cash flows, and behind them all that a statement says of the money of an account, kind by
/// kind.
pub open spec fn followed_by(flows: Seq<CashFlowModel>, statement: BrokerStatement) -> Seq<
    CashFlowModel,
> {
    let names = statement.instrument_info.names@;
    flows
        + flattened(statement.deposits_and_withdrawals@, deposit_or_withdrawal_rule())
        + flattened(statement.idle_cash_interest@, interest_rule())
        + flattened(statement.dividends@, dividend_rule(names))
        + flattened(statement.cash_grants@, grant_rule())
        + flattened(statement.cash_flows@, cash_flow_rule(names))
        + flattened(statement.forex_trades@, forex_trade_rule())
        + flattened(statement.stock_sells@, stock_sell_rule(names))
        + flattened(statement.stock_buys@, stock_buy_rule(names))
        + flattened(statement.fees@, fee_rule())
        + flattened(statement.tax_agent_withholdings@, tax_agent_withholding_rule())
}

/// All that a statement says of the money of an account, kind by kind.
pub open spec fn statement_flows(statement: BrokerStatement) -> Seq<CashFlowModel> {
    followed_by(Seq::empty(), statement)
}

proof fn lemma_flattened_next<T>(
    done: Seq<CashFlowModel>,
    items: Seq<T>,
    flows: spec_fn(T) -> Seq<CashFlowModel>,
    i: int,
)
    requires
        0 <= i < items.len(),
    ensures
        (done + flattened(items.take(i), flows)) + flows(items[i]) == done + flattened(
            items.take(i + 1),
            flows,
        ),
{
    assert(items.take(i + 1).drop_last() =~= items.take(i));
    let listed = flattened(items.take(i), flows);
    assert((done + listed) + flows(items[i]) =~= done + (listed + flows(items[i])));
}

/// The cash flow of an account in order.
pub fn map_broker_statement_to_cash_flow(statement: &BrokerStatement) -> (r: Vec<CashFlow>)
    ensures
        models(r@) == order::ordered(statement_flows(*statement)),
        laws::all_plausible(models(r@)),
        forall|i: int, j: int|
            0 <= i <= j < r@.len() ==> !time_laws::is_earlier_date(
                (#[trigger] r@[j]).time.date,
                (#[trigger] r@[i]).time.date,
            ),
{
    let mapper = CashFlowMapper { cash_flows: Vec::new() };
    assert(mapper.flows() =~= Seq::empty());
    let r = mapper.process(statement);
    proof {
        order_laws::statement_dates_follow_the_calendar(*statement);
        let list = models(r@);
        assert(forall|i: int| 0 <= i < r@.len() ==> (#[trigger] r@[i]).time == list[i].time);
    }
    r
}

/// Collects cash flows.
pub struct CashFlowMapper {
    pub cash_flows: Vec<CashFlow>,
}

impl CashFlowMapper {
    /// The cash flows so far.
    pub open spec fn flows(self) -> Seq<CashFlowModel> {
        models(self.cash_flows@)
    }

    /// Adds all that the statement says, and puts the cash flows in order.
    pub fn process(self, statement: &BrokerStatement) -> (r: Vec<CashFlow>)
        ensures
            models(r@) == order::ordered(followed_by(self.flows(), *statement)),
            self.flows().len() == 0 ==> laws::all_plausible(models(r@)),
    {
        let mut mapper = self;
        let ghost names = statement.instrument_info.names@;

        let ghost done = mapper.flows();
        let ghost items = statement.deposits_and_withdrawals@;
        for i in 0..statement.deposits_and_withdrawals.len()
            invariant
                items == statement.deposits_and_withdrawals@,
                mapper.flows() == done + flattened(items.take(i as int), deposit_or_withdrawal_rule()),
        {
            proof {
                lemma_flattened_next(done, items, deposit_or_withdrawal_rule(), i as int);
            }
            mapper.deposit_or_withdrawal(&statement.deposits_and_withdrawals[i]);
        }
        assert(items.take(items.len() as int) =~= items);

        let ghost done = mapper.flows();
        let ghost items = statement.idle_cash_interest@;
        for i in 0..statement.idle_cash_interest.len()
            invariant
                items == statement.idle_cash_interest@,
                mapper.flows() == done + flattened(items.take(i as int), interest_rule()),
        {
            proof {
                lemma_flattened_next(done, items, interest_rule(), i as int);
            }
            mapper.interest(&statement.idle_cash_interest[i]);
        }
        assert(items.take(items.len() as int) =~= items);

        let ghost done = mapper.flows();
        let ghost items = statement.dividends@;
        for i in 0..statement.dividends.len()
            invariant
                items == statement.dividends@,
                names == statement.instrument_info.names@,
                mapper.flows() == done + flattened(items.take(i as int), dividend_rule(names)),
        {
            proof {
                lemma_flattened_next(done, items, dividend_rule(names), i as int);
            }
            mapper.dividend(statement, &statement.dividends[i]);
        }
        assert(items.take(items.len() as int) =~= items);

        let ghost done = mapper.flows();
        let ghost items = statement.cash_grants@;
        for i in 0..statement.cash_grants.len()
            invariant
                items == statement.cash_grants@,
                mapper.flows() == done + flattened(items.take(i as int), grant_rule()),
        {
            proof {
                lemma_flattened_next(done, items, grant_rule(), i as int);
            }
            mapper.grant(&statement.cash_grants[i]);
        }
        assert(items.take(items.len() as int) =~= items);

        let ghost done = mapper.flows();
        let ghost items = statement.cash_flows@;
        for i in 0..statement.cash_flows.len()
            invariant
                items == statement.cash_flows@,
                names == statement.instrument_info.names@,
                mapper.flows() == done + flattened(items.take(i as int), cash_flow_rule(names)),
        {
            proof {
                lemma_flattened_next(done, items, cash_flow_rule(names), i as int);
            }
            mapper.cash_flow(statement, &statement.cash_flows[i]);
        }
        assert(items.take(items.len() as int) =~= items);

        let ghost done = mapper.flows();
        let ghost items = statement.forex_trades@;
        for i in 0..statement.forex_trades.len()
            invariant
                items == statement.forex_trades@,
                mapper.flows() == done + flattened(items.take(i as int), forex_trade_rule()),
        {
            proof {
                lemma_flattened_next(done, items, forex_trade_rule(), i as int);
            }
            mapper.forex_trade(&statement.forex_trades[i]);
        }
        assert(items.take(items.len() as int) =~= items);

        let ghost done = mapper.flows();
        let ghost items = statement.stock_sells@;
        for i in 0..statement.stock_sells.len()
            invariant
                items == statement.stock_sells@,
                names == statement.instrument_info.names@,
                mapper.flows() == done + flattened(items.take(i as int), stock_sell_rule(names)),
        {
            proof {
                lemma_flattened_next(done, items, stock_sell_rule(names), i as int);
            }
            let trade = &statement.stock_sells[i];
            let name = statement.instrument_info.get_name(trade.original_symbol.as_str());
            mapper.stock_sell(name.as_str(), trade);
        }
        assert(items.take(items.len() as int) =~= items);

        let ghost done = mapper.flows();
        let ghost items = statement.stock_buys@;
        for i in 0..statement.stock_buys.len()
            invariant
                items == statement.stock_buys@,
                names == statement.instrument_info.names@,
                mapper.flows() == done + flattened(items.take(i as int), stock_buy_rule(names)),
        {
            proof {
                lemma_flattened_next(done, items, stock_buy_rule(names), i as int);
            }
            let trade = &statement.stock_buys[i];
            let name = statement.instrument_info.get_name(trade.original_symbol.as_str());
            mapper.stock_buy(name.as_str(), trade);
        }
        assert(items.take(items.len() as int) =~= items);

        let ghost done = mapper.flows();
        let ghost items = statement.fees@;
        for i in 0..statement.fees.len()
            invariant
                items == statement.fees@,
                mapper.flows() == done + flattened(items.take(i as int), fee_rule()),
        {
            proof {
                lemma_flattened_next(done, items, fee_rule(), i as int);
            }
            mapper.fee(&statement.fees[i]);
        }
        assert(items.take(items.len() as int) =~= items);

        let ghost done = mapper.flows();
        let ghost items = statement.tax_agent_withholdings@;
        for i in 0..statement.tax_agent_withholdings.len()
            invariant
                items == statement.tax_agent_withholdings@,
                mapper.flows() == done + flattened(items.take(i as int), tax_agent_withholding_rule()),
        {
            proof {
                lemma_flattened_next(done, items, tax_agent_withholding_rule(), i as int);
            }
            mapper.tax_agent_withholding(&statement.tax_agent_withholdings[i]);
        }
        assert(items.take(items.len() as int) =~= items);

        proof {
            if self.flows().len() == 0 {
                assert(self.flows() =~= Seq::empty());
                laws::listed_flows_are_plausible(*statement);
            }
        }
        order::sort_cash_flows(mapper.cash_flows)
    }

    pub fn fee(&mut self, fee: &Fee)
        ensures
            final(self).flows() == old(self).flows() + fee_flows(*fee),
    {
        self.add_static(
            fee.date.to_date_opt_time(),
            Operation::Fee,
            fee.amount.withholding().negate(),
            fee.local_description(),
        );
        assert(self.flows() =~= old(self).flows() + fee_flows(*fee));
    }

    pub fn deposit_or_withdrawal(&mut self, assets: &CashAssets)
        ensures
            final(self).flows() == old(self).flows() + deposit_or_withdrawal_flows(*assets),
    {
        let (operation, description) = if assets.cash.is_positive() {
            (Operation::Deposit, "Ввод денежных средств")
        } else {
            (Operation::Withdrawal, "Вывод денежных средств")
        };
        self.add_static(assets.date.to_date_opt_time(), operation, assets.cash, description);
        assert(self.flows() =~= old(self).flows() + deposit_or_withdrawal_flows(*assets));
    }

    pub fn interest(&mut self, interest: &IdleCashInterest)
        ensures
            final(self).flows() == old(self).flows() + interest_flows(*interest),
    {
        self.add_static(
            interest.date.to_date_opt_time(),
            Operation::Interest,
            interest.amount,
            "Проценты на остаток по счету",
        );
        assert(self.flows() =~= old(self).flows() + interest_flows(*interest));
    }

    pub fn forex_trade(&mut self, trade: &ForexTrade)
        ensures
            final(self).flows() == old(self).flows() + forex_trade_flows(*trade),
    {
        let mut conversion_text = String::new();
        trade.from.push_to(&mut conversion_text);
        conversion_text.append(" -> ");
        trade.to.push_to(&mut conversion_text);
        assert(conversion_text@ =~= conversion(*trade));

        let mut description = "Конвертация ".to_owned();
        description.append(conversion_text.as_str());
        let cash_flow = self.add(
            trade.conclusion_time,
            Operation::ForexTrade,
            trade.from.negate(),
            description,
        );
        cash_flow.sibling_amount = Some(trade.to);

        let mut description = "Комиссия за конвертацию ".to_owned();
        description.append(conversion_text.as_str());
        self.add_commission(trade.conclusion_time, trade.commission, description);
        assert(self.flows() =~= old(self).flows() + forex_trade_flows(*trade));
    }

    pub fn stock_buy(&mut self, name: &str, trade: &StockBuy)
        ensures
            final(self).flows() == old(self).flows() + stock_buy_flows(name@, *trade),
    {
        match trade.type_ {
            StockSource::Trade { volume, commission, .. } => {
                let mut description = "Покупка ".to_owned();
                trade.quantity.push_to(&mut description);
                description.append(" ");
                description.append(name);
                self.add(
                    trade.conclusion_time,
                    Operation::BuyTrade,
                    volume.negate(),
                    description,
                );

                let mut description = "Комиссия за покупку ".to_owned();
                trade.quantity.push_to(&mut description);
                description.append(" ");
                description.append(name);
                self.add_commission(trade.conclusion_time, commission, description);
            },
            StockSource::CorporateAction | StockSource::Grant => {},
        }
        assert(self.flows() =~= old(self).flows() + stock_buy_flows(name@, *trade));
    }

    pub fn stock_sell(&mut self, name: &str, trade: &StockSell)
        ensures
            final(self).flows() == old(self).flows() + stock_sell_flows(name@, *trade),
    {
        match trade.type_ {
            StockSellType::Trade { volume, commission, .. } => {
                if !volume.is_zero() {
                    let mut description = "Продажа ".to_owned();
                    trade.quantity.push_to(&mut description);
                    description.append(" ");
                    description.append(name);
                    self.add(trade.conclusion_time, Operation::SellTrade, volume, description);
                }

                let mut description = "Комиссия за продажу ".to_owned();
                trade.quantity.push_to(&mut description);
                description.append(" ");
                description.append(name);
                self.add_commission(trade.conclusion_time, commission, description);
            },
            StockSellType::CorporateAction => {},
        }
        assert(self.flows() =~= old(self).flows() + stock_sell_flows(name@, *trade));
    }

    pub fn dividend(&mut self, statement: &BrokerStatement, dividend: &Dividend)
        ensures
            final(self).flows() == old(self).flows() + dividend_flows(
                statement.instrument_info.names@,
                *dividend,
            ),
    {
        if dividend.skip_from_cash_flow {
            assert(self.flows() =~= old(self).flows() + Seq::empty());
            return;
        }
        let date = dividend.date.to_date_opt_time();
        let issuer = &dividend.original_issuer;
        self.cash_flow(
            statement,
            &CashFlowDetails::new(
                date,
                dividend.amount,
                CashFlowType::Dividend { date: dividend.date, issuer: issuer.clone() },
            ),
        );
        if !dividend.paid_tax.is_zero() {
            self.cash_flow(
                statement,
                &CashFlowDetails::new(
                    date,
                    dividend.paid_tax.negate(),
                    CashFlowType::Tax { date: dividend.date, issuer: issuer.clone() },
                ),
            );
        }
        assert(self.flows() =~= old(self).flows() + dividend_flows(
            statement.instrument_info.names@,
            *dividend,
        ));
    }

    pub fn cash_flow(&mut self, statement: &BrokerStatement, cash_flow: &CashFlowDetails)
        ensures
            final(self).flows() == old(self).flows() + cash_flow_flows(
                statement.instrument_info.names@,
                *cash_flow,
            ),
    {
        let date = cash_flow.date;
        let amount = cash_flow.amount;
        match &cash_flow.type_ {
            CashFlowType::Dividend { date: dividend_date, issuer } => {
                let name = get_dividend_name(
                    &statement.instrument_info,
                    issuer.as_str(),
                    date.date,
                    *dividend_date,
                );
                let mut description = if amount.is_positive() {
                    "Дивиденд от ".to_owned()
                } else {
                    "Возврат дивиденда от ".to_owned()
                };
                description.append(name.as_str());
                self.add(date, Operation::Dividend, amount, description);
            },
            CashFlowType::Tax { date: dividend_date, issuer } => {
                let name = get_dividend_name(
                    &statement.instrument_info,
                    issuer.as_str(),
                    date.date,
                    *dividend_date,
                );
                let mut description = if amount.is_positive() {
                    "Возврат налога, удержанного с дивиденда от ".to_owned()
                } else {
                    "Налог, удержанный с дивиденда от ".to_owned()
                };
                description.append(name.as_str());
                self.add(date, Operation::Dividend, amount, description);
            },
            CashFlowType::Repo { symbol, commission } => {
                let name = statement.instrument_info.get_name(symbol.as_str());
                let mut description = "Сделка РЕПО с ".to_owned();
                description.append(name.as_str());
                self.add(date, Operation::RepoDeal, amount, description);

                let mut description = "Комиссия за заключение сделки РЕПО с ".to_owned();
                description.append(name.as_str());
                self.add_commission(date, *commission, description);
            },
        }
        assert(self.flows() =~= old(self).flows() + cash_flow_flows(
            statement.instrument_info.names@,
            *cash_flow,
        ));
    }

    pub fn grant(&mut self, grant: &CashGrant)
        ensures
            final(self).flows() == old(self).flows() + grant_flows(*grant),
    {
        self.add_static(
            grant.date.to_date_opt_time(),
            Operation::Grant,
            grant.amount,
            grant.description.as_str(),
        );
        assert(self.flows() =~= old(self).flows() + grant_flows(*grant));
    }

    pub fn tax_agent_withholding(&mut self, tax: &TaxAgentWithholding)
        ensures
            final(self).flows() == old(self).flows() + tax_agent_withholding_flows(*tax),
    {
        let mut description = match tax.amount {
            Withholding::Withholding(_) => "Удержание".to_owned(),
            Withholding::Refund(_) => "Возврат".to_owned(),
        };
        description.append(" налога за ");
        push_integer(&mut description, tax.year);
        description.append(" год");
        self.add(
            tax.date.to_date_opt_time(),
            Operation::Tax,
            tax.amount.withholding().negate(),
            description,
        );
        assert(self.flows() =~= old(self).flows() + tax_agent_withholding_flows(*tax));
    }

    /// Adds a commission that is not zero.
    pub fn add_commission(&mut self, time: DateOptTime, commission: Cash, description: String)
        ensures
            final(self).flows() == old(self).flows() + commission_flows(
                time,
                commission,
                description@,
            ),
    {
        let ghost text = description@;
        if !commission.is_zero() {
            self.add(time, Operation::Commission, commission.negate(), description);
        }
        assert(self.flows() =~= old(self).flows() + commission_flows(time, commission, text));
    }

    pub fn add_static(
        &mut self,
        time: DateOptTime,
        operation: Operation,
        amount: Cash,
        description: &str,
    ) -> (r: &mut CashFlow)
        ensures
            r@ == flow(time, operation, amount, description@),
            final(self).flows() == old(self).flows().push(final(r)@),
    {
        self.add(time, operation, amount, description.to_owned())
    }

    pub fn add(
        &mut self,
        time: DateOptTime,
        operation: Operation,
        amount: Cash,
        description: String,
    ) -> (r: &mut CashFlow)
        ensures
            r@ == flow(time, operation, amount, description@),
            final(self).flows() == old(self).flows().push(final(r)@),
    {
        self.cash_flows.push(
            CashFlow { time, operation, amount, sibling_amount: None, description },
        );
        self.cash_flows.last_mut().unwrap()
    }
}

/// The name of an issuer, with the date of its dividend where the money moved on another one.
fn get_dividend_name(info: &InstrumentInfo, issuer: &str, date: Date, dividend_date: Date) -> (r:
    String)
    ensures
        r@ == dividend_name(info.names@, issuer@, date, dividend_date),
{
    let mut name = info.get_name(issuer);
    if date != dividend_date {
        name.append(" от ");
        name.append(formatting::format_date(dividend_date).as_str());
    }
    name
}

/// Appends an integer in decimal notation.
fn push_integer(out: &mut String, n: i32)
    ensures
        final(out)@ == old(out)@ + integer_notation(n as int),
{
    let ghost start = out@;
    let magnitude: u128 = if n < 0 {
        out.push('-');
        (-(n as i64)) as u128
    } else {
        n as u128
    };
    text::push_padded(out, magnitude, 0);
    assert(out@ =~= start + integer_notation(n as int));
}

} // verus!

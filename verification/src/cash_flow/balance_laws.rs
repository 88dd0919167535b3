//! What a whole statement does to the money of an account.

use vstd::arithmetic::power;
use vstd::prelude::*;

use crate::broker_statement;
use crate::broker_statement::{
    BrokerStatement, CashFlow, CashFlowType, CashGrant, Dividend, Fee, ForexTrade, IdleCashInterest,
    InstrumentName, StockBuy, StockSell, StockSellType, StockSource, TaxAgentWithholding,
    Withholding,
};
use crate::cash_flow::mapper::{self, CashFlowModel, Operation};
use crate::cash_flow::{laws, money_laws, order};
use crate::currency::{Cash, CashAssets};
use crate::decimal_laws;

verus! {

/// The sum of what the items count for.
pub open spec fn sum<T>(items: Seq<T>, worth: spec_fn(T) -> int) -> int
    decreases items.len(),
{
    if items.len() == 0 {
        0
    } else {
        sum(items.drop_last(), worth) + worth(items.last())
    }
}

/// What the cash flows of one item count for.
pub open spec fn total_of<T>(
    flows: spec_fn(T) -> Seq<CashFlowModel>,
    worth: spec_fn(CashFlowModel) -> int,
) -> spec_fn(T) -> int {
    |item: T| laws::total(flows(item), worth)
}

proof fn lemma_total_joined(
    a: Seq<CashFlowModel>,
    b: Seq<CashFlowModel>,
    worth: spec_fn(CashFlowModel) -> int,
)
    ensures
        laws::total(a + b, worth) == laws::total(a, worth) + laws::total(b, worth),
    decreases b.len(),
{
    if b.len() == 0 {
        assert(a + b =~= a);
    } else {
        lemma_total_joined(a, b.drop_last(), worth);
        assert((a + b).drop_last() =~= a + b.drop_last());
    }
}

proof fn lemma_total_flattened<T>(
    items: Seq<T>,
    flows: spec_fn(T) -> Seq<CashFlowModel>,
    worth: spec_fn(CashFlowModel) -> int,
)
    ensures
        laws::total(mapper::flattened(items, flows), worth) == sum(items, total_of(flows, worth)),
    decreases items.len(),
{
    if items.len() > 0 {
        lemma_total_flattened(items.drop_last(), flows, worth);
        lemma_total_joined(
            mapper::flattened(items.drop_last(), flows),
            flows(items.last()),
            worth,
        );
    }
}

proof fn lemma_same_sum<T>(items: Seq<T>, a: spec_fn(T) -> int, b: spec_fn(T) -> int)
    requires
        forall|item: T| #[trigger] a(item) == b(item),
    ensures
        sum(items, a) == sum(items, b),
    decreases items.len(),
{
    if items.len() > 0 {
        lemma_same_sum(items.drop_last(), a, b);
        assert(a(items.last()) == b(items.last()));
    }
}

/// Each entry of a statement is listed once, and nothing else is: whatever a cash flow counts for,
/// the list counts for the cash flows of all deposits and withdrawals, interest, dividends, grants,
/// payments, exchanges, sales, purchases, fees and taxes together.
pub proof fn each_entry_is_listed_once(
    statement: BrokerStatement,
    worth: spec_fn(CashFlowModel) -> int,
)
    ensures
        ({
            let names = statement.instrument_info.names@;
            laws::total(order::ordered(mapper::statement_flows(statement)), worth) == sum(
                statement.deposits_and_withdrawals@,
                |entry: CashAssets|
                    laws::total(mapper::deposit_or_withdrawal_flows(entry), worth),
            ) + sum(
                statement.idle_cash_interest@,
                |entry: IdleCashInterest| laws::total(mapper::interest_flows(entry), worth),
            ) + sum(
                statement.dividends@,
                |entry: Dividend| laws::total(mapper::dividend_flows(names, entry), worth),
            ) + sum(
                statement.cash_grants@,
                |entry: CashGrant| laws::total(mapper::grant_flows(entry), worth),
            ) + sum(
                statement.cash_flows@,
                |entry: CashFlow| laws::total(mapper::cash_flow_flows(names, entry), worth),
            ) + sum(
                statement.forex_trades@,
                |entry: ForexTrade| laws::total(mapper::forex_trade_flows(entry), worth),
            ) + sum(
                statement.stock_sells@,
                |entry: StockSell|
                    laws::total(
                        mapper::stock_sell_flows(
                            broker_statement::instrument_name(names, entry.original_symbol@),
                            entry,
                        ),
                        worth,
                    ),
            ) + sum(
                statement.stock_buys@,
                |entry: StockBuy|
                    laws::total(
                        mapper::stock_buy_flows(
                            broker_statement::instrument_name(names, entry.original_symbol@),
                            entry,
                        ),
                        worth,
                    ),
            ) + sum(
                statement.fees@,
                |entry: Fee| laws::total(mapper::fee_flows(entry), worth),
            ) + sum(
                statement.tax_agent_withholdings@,
                |entry: TaxAgentWithholding|
                    laws::total(mapper::tax_agent_withholding_flows(entry), worth),
            )
        }),
{
    lemma_statement_total(statement, worth);
    let names = statement.instrument_info.names@;
    lemma_same_sum(
        statement.deposits_and_withdrawals@,
        total_of(mapper::deposit_or_withdrawal_rule(), worth),
        |entry: CashAssets| laws::total(mapper::deposit_or_withdrawal_flows(entry), worth),
    );
    lemma_same_sum(
        statement.idle_cash_interest@,
        total_of(mapper::interest_rule(), worth),
        |entry: IdleCashInterest| laws::total(mapper::interest_flows(entry), worth),
    );
    lemma_same_sum(
        statement.dividends@,
        total_of(mapper::dividend_rule(names), worth),
        |entry: Dividend| laws::total(mapper::dividend_flows(names, entry), worth),
    );
    lemma_same_sum(
        statement.cash_grants@,
        total_of(mapper::grant_rule(), worth),
        |entry: CashGrant| laws::total(mapper::grant_flows(entry), worth),
    );
    lemma_same_sum(
        statement.cash_flows@,
        total_of(mapper::cash_flow_rule(names), worth),
        |entry: CashFlow| laws::total(mapper::cash_flow_flows(names, entry), worth),
    );
    lemma_same_sum(
        statement.forex_trades@,
        total_of(mapper::forex_trade_rule(), worth),
        |entry: ForexTrade| laws::total(mapper::forex_trade_flows(entry), worth),
    );
    lemma_same_sum(
        statement.stock_sells@,
        total_of(mapper::stock_sell_rule(names), worth),
        |entry: StockSell|
            laws::total(
                mapper::stock_sell_flows(
                    broker_statement::instrument_name(names, entry.original_symbol@),
                    entry,
                ),
                worth,
            ),
    );
    lemma_same_sum(
        statement.stock_buys@,
        total_of(mapper::stock_buy_rule(names), worth),
        |entry: StockBuy|
            laws::total(
                mapper::stock_buy_flows(
                    broker_statement::instrument_name(names, entry.original_symbol@),
                    entry,
                ),
                worth,
            ),
    );
    lemma_same_sum(
        statement.fees@,
        total_of(mapper::fee_rule(), worth),
        |entry: Fee| laws::total(mapper::fee_flows(entry), worth),
    );
    lemma_same_sum(
        statement.tax_agent_withholdings@,
        total_of(mapper::tax_agent_withholding_rule(), worth),
        |entry: TaxAgentWithholding| laws::total(mapper::tax_agent_withholding_flows(entry), worth),
    );
}

proof fn lemma_statement_total(statement: BrokerStatement, worth: spec_fn(CashFlowModel) -> int)
    ensures
        ({
            let names = statement.instrument_info.names@;
            laws::total(order::ordered(mapper::statement_flows(statement)), worth) == sum(
                statement.deposits_and_withdrawals@,
                total_of(mapper::deposit_or_withdrawal_rule(), worth),
            ) + sum(statement.idle_cash_interest@, total_of(mapper::interest_rule(), worth)) + sum(
                statement.dividends@,
                total_of(mapper::dividend_rule(names), worth),
            ) + sum(statement.cash_grants@, total_of(mapper::grant_rule(), worth)) + sum(
                statement.cash_flows@,
                total_of(mapper::cash_flow_rule(names), worth),
            ) + sum(statement.forex_trades@, total_of(mapper::forex_trade_rule(), worth)) + sum(
                statement.stock_sells@,
                total_of(mapper::stock_sell_rule(names), worth),
            ) + sum(statement.stock_buys@, total_of(mapper::stock_buy_rule(names), worth)) + sum(
                statement.fees@,
                total_of(mapper::fee_rule(), worth),
            ) + sum(
                statement.tax_agent_withholdings@,
                total_of(mapper::tax_agent_withholding_rule(), worth),
            )
        }),
{
    let names = statement.instrument_info.names@;
    laws::ordering_keeps_totals(mapper::statement_flows(statement), worth);
    let a = mapper::flattened(
        statement.deposits_and_withdrawals@,
        mapper::deposit_or_withdrawal_rule(),
    );
    let b = mapper::flattened(statement.idle_cash_interest@, mapper::interest_rule());
    let c = mapper::flattened(statement.dividends@, mapper::dividend_rule(names));
    let d = mapper::flattened(statement.cash_grants@, mapper::grant_rule());
    let e = mapper::flattened(statement.cash_flows@, mapper::cash_flow_rule(names));
    let f = mapper::flattened(statement.forex_trades@, mapper::forex_trade_rule());
    let g = mapper::flattened(statement.stock_sells@, mapper::stock_sell_rule(names));
    let h = mapper::flattened(statement.stock_buys@, mapper::stock_buy_rule(names));
    let i = mapper::flattened(statement.fees@, mapper::fee_rule());
    let j = mapper::flattened(
        statement.tax_agent_withholdings@,
        mapper::tax_agent_withholding_rule(),
    );
    let none = Seq::<CashFlowModel>::empty();
    lemma_total_joined(none, a, worth);
    lemma_total_joined(none + a, b, worth);
    lemma_total_joined(none + a + b, c, worth);
    lemma_total_joined(none + a + b + c, d, worth);
    lemma_total_joined(none + a + b + c + d, e, worth);
    lemma_total_joined(none + a + b + c + d + e, f, worth);
    lemma_total_joined(none + a + b + c + d + e + f, g, worth);
    lemma_total_joined(none + a + b + c + d + e + f + g, h, worth);
    lemma_total_joined(none + a + b + c + d + e + f + g + h, i, worth);
    lemma_total_joined(none + a + b + c + d + e + f + g + h + i, j, worth);
    lemma_total_flattened(
        statement.deposits_and_withdrawals@,
        mapper::deposit_or_withdrawal_rule(),
        worth,
    );
    lemma_total_flattened(statement.idle_cash_interest@, mapper::interest_rule(), worth);
    lemma_total_flattened(statement.dividends@, mapper::dividend_rule(names), worth);
    lemma_total_flattened(statement.cash_grants@, mapper::grant_rule(), worth);
    lemma_total_flattened(statement.cash_flows@, mapper::cash_flow_rule(names), worth);
    lemma_total_flattened(statement.forex_trades@, mapper::forex_trade_rule(), worth);
    lemma_total_flattened(statement.stock_sells@, mapper::stock_sell_rule(names), worth);
    lemma_total_flattened(statement.stock_buys@, mapper::stock_buy_rule(names), worth);
    lemma_total_flattened(statement.fees@, mapper::fee_rule(), worth);
    lemma_total_flattened(
        statement.tax_agent_withholdings@,
        mapper::tax_agent_withholding_rule(),
        worth,
    );
}

/// Whether a count of money takes an amount with the other sign for the opposite, and no money for
/// nothing.
pub open spec fn counts_money(money: spec_fn(Cash) -> int) -> bool {
    &&& forall|cash: Cash| money(#[trigger] money_laws::reversed(cash)) == -money(cash)
    &&& forall|cash: Cash| cash.amount.magnitude == 0 ==> #[trigger] money(cash) == 0
}

/// The money in one currency, in units of a decimal place that is fine enough for it.
pub open spec fn money_in(currency: &'static str, places: nat) -> spec_fn(Cash) -> int {
    |cash: Cash|
        if cash.currency == currency && cash.amount.scale <= places {
            decimal_laws::units(cash.amount) * power::pow(10, (places - cash.amount.scale) as nat)
        } else {
            0
        }
}

/// The money in one currency is counted so.
pub proof fn money_in_a_currency_is_counted(currency: &'static str, places: nat)
    ensures
        counts_money(money_in(currency, places)),
{
    let money = money_in(currency, places);
    assert forall|cash: Cash| money(#[trigger] money_laws::reversed(cash)) == -money(cash) by {
        let n = decimal_laws::units(cash.amount);
        let p = power::pow(10, (places - cash.amount.scale) as nat);
        assert((-n) * p == -(n * p)) by (nonlinear_arith);
    }
    assert forall|cash: Cash| cash.amount.magnitude == 0 implies #[trigger] money(cash) == 0 by {
        assert(decimal_laws::units(cash.amount) == 0);
    }
}

/// The money that the cash flows of an operation move.
pub open spec fn moved_by(operation: Operation, money: spec_fn(Cash) -> int) -> spec_fn(
    CashFlowModel,
) -> int {
    |flow: CashFlowModel|
        if flow.operation == operation {
            money(flow.amount)
        } else {
            0
        }
}

/// The money that cash flows move, all operations together.
pub open spec fn moved(money: spec_fn(Cash) -> int) -> spec_fn(CashFlowModel) -> int {
    |flow: CashFlowModel| money(flow.amount)
}

/// The money that is got in exchanges.
pub open spec fn got(money: spec_fn(Cash) -> int) -> spec_fn(CashFlowModel) -> int {
    |flow: CashFlowModel|
        match flow.sibling_amount {
            Some(amount) => money(amount),
            None => 0,
        }
}

proof fn lemma_short_total(flows: Seq<CashFlowModel>, worth: spec_fn(CashFlowModel) -> int)
    ensures
        flows.len() == 0 ==> laws::total(flows, worth) == 0,
        flows.len() == 1 ==> laws::total(flows, worth) == worth(flows[0]),
        flows.len() == 2 ==> laws::total(flows, worth) == worth(flows[0]) + worth(flows[1]),
{
    reveal_with_fuel(laws::total, 3);
}

/// The money that a purchase costs without its commission.
pub open spec fn purchase_volume(money: spec_fn(Cash) -> int) -> spec_fn(StockBuy) -> int {
    |trade: StockBuy|
        match trade.type_ {
            StockSource::Trade { volume, .. } => money(volume),
            _ => 0,
        }
}

pub open spec fn purchase_commission(money: spec_fn(Cash) -> int) -> spec_fn(StockBuy) -> int {
    |trade: StockBuy|
        match trade.type_ {
            StockSource::Trade { commission, .. } => money(commission),
            _ => 0,
        }
}

/// The money that a sale brings without its commission.
pub open spec fn sale_volume(money: spec_fn(Cash) -> int) -> spec_fn(StockSell) -> int {
    |trade: StockSell|
        match trade.type_ {
            StockSellType::Trade { volume, .. } => money(volume),
            _ => 0,
        }
}

pub open spec fn sale_commission(money: spec_fn(Cash) -> int) -> spec_fn(StockSell) -> int {
    |trade: StockSell|
        match trade.type_ {
            StockSellType::Trade { commission, .. } => money(commission),
            _ => 0,
        }
}

pub open spec fn exchange_commission(money: spec_fn(Cash) -> int) -> spec_fn(ForexTrade) -> int {
    |trade: ForexTrade| money(trade.commission)
}

pub open spec fn payment_commission(money: spec_fn(Cash) -> int) -> spec_fn(CashFlow) -> int {
    |payment: CashFlow|
        match payment.type_ {
            CashFlowType::Repo { commission, .. } => money(commission),
            _ => 0,
        }
}

/// The money that dividends bring when the tax on them is paid.
pub open spec fn dividend_after_tax(money: spec_fn(Cash) -> int) -> spec_fn(Dividend) -> int {
    |dividend: Dividend|
        if dividend.skip_from_cash_flow {
            0
        } else {
            money(dividend.amount) - money(dividend.paid_tax)
        }
}

/// The money that is taken, or given back with the other sign.
pub open spec fn taken(money: spec_fn(Cash) -> int, withholding: Withholding) -> int {
    match withholding {
        Withholding::Withholding(amount) => money(amount),
        Withholding::Refund(amount) => -money(amount),
    }
}

/// Of the cash flows of one entry: a purchase takes out its volume and its commission.
pub proof fn money_of_a_purchase(name: Seq<char>, trade: StockBuy, money: spec_fn(Cash) -> int)
    requires
        counts_money(money),
    ensures
        ({
            let flows = mapper::stock_buy_flows(name, trade);
            &&& laws::total(flows, moved_by(Operation::BuyTrade, money)) == -purchase_volume(money)(
                trade,
            )
            &&& laws::total(flows, moved_by(Operation::Commission, money)) == -purchase_commission(
                money,
            )(trade)
            &&& laws::total(flows, moved(money)) == -purchase_volume(money)(trade)
                - purchase_commission(money)(trade)
            &&& forall|operation: Operation|
                !(operation is BuyTrade) && !(operation is Commission) ==> laws::total(
                    flows,
                    #[trigger] moved_by(operation, money),
                ) == 0
            &&& laws::total(flows, got(money)) == 0
        }),
{
    let flows = mapper::stock_buy_flows(name, trade);
    money_laws::purchase_takes_out_its_volume(name, trade);
    lemma_short_total(flows, moved_by(Operation::BuyTrade, money));
    lemma_short_total(flows, moved_by(Operation::Commission, money));
    lemma_short_total(flows, moved(money));
    lemma_short_total(flows, got(money));
    assert forall|operation: Operation|
        !(operation is BuyTrade) && !(operation is Commission) implies laws::total(
        flows,
        #[trigger] moved_by(operation, money),
    ) == 0 by {
        lemma_short_total(flows, moved_by(operation, money));
    }
}

/// Of the cash flows of one entry: a sale brings in its volume and takes out its commission.
pub proof fn money_of_a_sale(name: Seq<char>, trade: StockSell, money: spec_fn(Cash) -> int)
    requires
        counts_money(money),
    ensures
        ({
            let flows = mapper::stock_sell_flows(name, trade);
            &&& laws::total(flows, moved_by(Operation::SellTrade, money)) == sale_volume(money)(
                trade,
            )
            &&& laws::total(flows, moved_by(Operation::Commission, money)) == -sale_commission(
                money,
            )(trade)
            &&& laws::total(flows, moved(money)) == sale_volume(money)(trade) - sale_commission(
                money,
            )(trade)
            &&& forall|operation: Operation|
                !(operation is SellTrade) && !(operation is Commission) ==> laws::total(
                    flows,
                    #[trigger] moved_by(operation, money),
                ) == 0
            &&& laws::total(flows, got(money)) == 0
        }),
{
    let flows = mapper::stock_sell_flows(name, trade);
    money_laws::sale_brings_in_its_volume(name, trade);
    lemma_short_total(flows, moved_by(Operation::SellTrade, money));
    lemma_short_total(flows, moved_by(Operation::Commission, money));
    lemma_short_total(flows, moved(money));
    lemma_short_total(flows, got(money));
    assert forall|operation: Operation|
        !(operation is SellTrade) && !(operation is Commission) implies laws::total(
        flows,
        #[trigger] moved_by(operation, money),
    ) == 0 by {
        lemma_short_total(flows, moved_by(operation, money));
    }
}

/// Of the cash flows of one entry: an exchange takes out what was given and its commission, each in
/// its own currency, and names what was got.
pub proof fn money_of_an_exchange(trade: ForexTrade, money: spec_fn(Cash) -> int)
    requires
        counts_money(money),
    ensures
        ({
            let flows = mapper::forex_trade_flows(trade);
            &&& laws::total(flows, moved_by(Operation::ForexTrade, money)) == -money(trade.from)
            &&& laws::total(flows, moved_by(Operation::Commission, money)) == -money(
                trade.commission,
            )
            &&& laws::total(flows, moved(money)) == -money(trade.from) - money(trade.commission)
            &&& forall|operation: Operation|
                !(operation is ForexTrade) && !(operation is Commission) ==> laws::total(
                    flows,
                    #[trigger] moved_by(operation, money),
                ) == 0
            &&& laws::total(flows, got(money)) == money(trade.to)
        }),
{
    let flows = mapper::forex_trade_flows(trade);
    money_laws::exchange_takes_out_what_was_given(trade);
    lemma_short_total(flows, moved_by(Operation::ForexTrade, money));
    lemma_short_total(flows, moved_by(Operation::Commission, money));
    lemma_short_total(flows, moved(money));
    lemma_short_total(flows, got(money));
    assert forall|operation: Operation|
        !(operation is ForexTrade) && !(operation is Commission) implies laws::total(
        flows,
        #[trigger] moved_by(operation, money),
    ) == 0 by {
        lemma_short_total(flows, moved_by(operation, money));
    }
}

/// The commission of an exchange is taken in its own currency and in no other one.
pub proof fn exchange_commission_is_taken_in_its_currency(
    trade: ForexTrade,
    currency: &'static str,
    places: nat,
)
    ensures
        ({
            let taken = laws::total(
                mapper::forex_trade_flows(trade),
                moved_by(Operation::Commission, money_in(currency, places)),
            );
            &&& currency != trade.commission.currency ==> taken == 0
            &&& currency == trade.commission.currency && places == trade.commission.amount.scale
                ==> taken == -decimal_laws::units(trade.commission.amount)
        }),
{
    money_in_a_currency_is_counted(currency, places);
    money_of_an_exchange(trade, money_in(currency, places));
    power::lemma_pow0(10);
}

/// Of the cash flows of one entry: a payment moves its amount, and a repurchase deal takes out its
/// commission.
pub proof fn money_of_a_payment(
    names: Seq<InstrumentName>,
    payment: CashFlow,
    money: spec_fn(Cash) -> int,
)
    requires
        counts_money(money),
    ensures
        ({
            let flows = mapper::cash_flow_flows(names, payment);
            &&& laws::total(flows, moved_by(Operation::RepoDeal, money)) == if payment.type_ is Repo {
                money(payment.amount)
            } else {
                0
            }
            &&& laws::total(flows, moved_by(Operation::Dividend, money)) == if payment.type_ is Repo {
                0
            } else {
                money(payment.amount)
            }
            &&& laws::total(flows, moved_by(Operation::Commission, money)) == -payment_commission(
                money,
            )(payment)
            &&& laws::total(flows, moved(money)) == money(payment.amount) - payment_commission(
                money,
            )(payment)
            &&& forall|operation: Operation|
                !(operation is RepoDeal) && !(operation is Dividend) && !(operation is Commission)
                    ==> laws::total(flows, #[trigger] moved_by(operation, money)) == 0
            &&& laws::total(flows, got(money)) == 0
        }),
{
    let flows = mapper::cash_flow_flows(names, payment);
    money_laws::repurchase_deal_moves_its_amount(names, payment);
    money_laws::listed_payment_moves_its_amount(names, payment);
    lemma_short_total(flows, moved_by(Operation::RepoDeal, money));
    lemma_short_total(flows, moved_by(Operation::Dividend, money));
    lemma_short_total(flows, moved_by(Operation::Commission, money));
    lemma_short_total(flows, moved(money));
    lemma_short_total(flows, got(money));
    assert forall|operation: Operation|
        !(operation is RepoDeal) && !(operation is Dividend) && !(
        operation is Commission) implies laws::total(
        flows,
        #[trigger] moved_by(operation, money),
    ) == 0 by {
        lemma_short_total(flows, moved_by(operation, money));
    }
}

/// Of the cash flows of one entry: a dividend brings in its amount and takes out the tax on it.
pub proof fn money_of_a_dividend(
    names: Seq<InstrumentName>,
    dividend: Dividend,
    money: spec_fn(Cash) -> int,
)
    requires
        counts_money(money),
    ensures
        ({
            let flows = mapper::dividend_flows(names, dividend);
            &&& laws::total(flows, moved(money)) == dividend_after_tax(money)(dividend)
            &&& laws::total(flows, moved_by(Operation::Dividend, money)) == dividend_after_tax(
                money,
            )(dividend)
            &&& forall|operation: Operation|
                !(operation is Dividend) ==> laws::total(
                    flows,
                    #[trigger] moved_by(operation, money),
                ) == 0
            &&& laws::total(flows, got(money)) == 0
        }),
{
    let flows = mapper::dividend_flows(names, dividend);
    money_laws::dividend_comes_in_and_its_tax_goes_out(names, dividend);
    lemma_short_total(flows, moved_by(Operation::Dividend, money));
    lemma_short_total(flows, moved(money));
    lemma_short_total(flows, got(money));
    assert forall|operation: Operation| !(operation is Dividend) implies laws::total(
        flows,
        #[trigger] moved_by(operation, money),
    ) == 0 by {
        lemma_short_total(flows, moved_by(operation, money));
    }
}

/// Of the cash flows of one entry: a fee takes out its amount, or brings it back.
pub proof fn money_of_a_fee(fee: Fee, money: spec_fn(Cash) -> int)
    requires
        counts_money(money),
    ensures
        laws::total(mapper::fee_flows(fee), moved(money)) == -taken(money, fee.amount),
{
    let flows = mapper::fee_flows(fee);
    lemma_short_total(flows, moved(money));
    match fee.amount {
        Withholding::Withholding(amount) => {
            money_laws::reverse_cancels_out(amount, amount);
            assert(flows[0].amount == money_laws::reversed(amount));
        },
        Withholding::Refund(amount) => {
            assert(flows[0].amount == amount);
        },
    }
}

/// Of the cash flows of one entry: a tax takes out its amount, or brings it back.
pub proof fn money_of_a_tax(tax: TaxAgentWithholding, money: spec_fn(Cash) -> int)
    requires
        counts_money(money),
    ensures
        laws::total(mapper::tax_agent_withholding_flows(tax), moved(money)) == -taken(
            money,
            tax.amount,
        ),
{
    let flows = mapper::tax_agent_withholding_flows(tax);
    lemma_short_total(flows, moved(money));
    match tax.amount {
        Withholding::Withholding(amount) => {
            money_laws::reverse_cancels_out(amount, amount);
            assert(flows[0].amount == money_laws::reversed(amount));
        },
        Withholding::Refund(amount) => {
            assert(flows[0].amount == amount);
        },
    }
}

proof fn lemma_opposite_sum<T>(items: Seq<T>, a: spec_fn(T) -> int, b: spec_fn(T) -> int)
    requires
        forall|item: T| #[trigger] a(item) == -b(item),
    ensures
        sum(items, a) == -sum(items, b),
    decreases items.len(),
{
    if items.len() > 0 {
        lemma_opposite_sum(items.drop_last(), a, b);
        assert(a(items.last()) == -b(items.last()));
    }
}

proof fn lemma_no_sum<T>(items: Seq<T>, a: spec_fn(T) -> int)
    requires
        forall|item: T| #[trigger] a(item) == 0,
    ensures
        sum(items, a) == 0,
    decreases items.len(),
{
    if items.len() > 0 {
        lemma_no_sum(items.drop_last(), a);
        assert(a(items.last()) == 0);
    }
}

/// What is not traded moves no money of trades and commissions.
proof fn lemma_no_trades(statement: BrokerStatement, operation: Operation, money: spec_fn(
    Cash,
) -> int)
    requires
        operation is ForexTrade || operation is SellTrade || operation is BuyTrade
            || operation is Commission,
        counts_money(money),
    ensures
        ({
            let worth = moved_by(operation, money);
            let names = statement.instrument_info.names@;
            &&& sum(
                statement.deposits_and_withdrawals@,
                total_of(mapper::deposit_or_withdrawal_rule(), worth),
            ) == 0
            &&& sum(statement.idle_cash_interest@, total_of(mapper::interest_rule(), worth)) == 0
            &&& sum(statement.dividends@, total_of(mapper::dividend_rule(names), worth)) == 0
            &&& sum(statement.cash_grants@, total_of(mapper::grant_rule(), worth)) == 0
            &&& sum(statement.fees@, total_of(mapper::fee_rule(), worth)) == 0
            &&& sum(
                statement.tax_agent_withholdings@,
                total_of(mapper::tax_agent_withholding_rule(), worth),
            ) == 0
        }),
{
    let worth = moved_by(operation, money);
    let names = statement.instrument_info.names@;
    let deposits = total_of(mapper::deposit_or_withdrawal_rule(), worth);
    assert forall|assets: CashAssets| #[trigger] deposits(assets) == 0 by {
        money_laws::deposit_is_what_is_positive(assets);
        lemma_short_total(mapper::deposit_or_withdrawal_flows(assets), worth);
    }
    lemma_no_sum(statement.deposits_and_withdrawals@, deposits);
    let interest = total_of(mapper::interest_rule(), worth);
    assert forall|entry: IdleCashInterest| #[trigger] interest(entry) == 0 by {
        lemma_short_total(mapper::interest_flows(entry), worth);
    }
    lemma_no_sum(statement.idle_cash_interest@, interest);
    let dividends = total_of(mapper::dividend_rule(names), worth);
    assert forall|entry: Dividend| #[trigger] dividends(entry) == 0 by {
        money_of_a_dividend(names, entry, money);
    }
    lemma_no_sum(statement.dividends@, dividends);
    let grants = total_of(mapper::grant_rule(), worth);
    assert forall|entry: CashGrant| #[trigger] grants(entry) == 0 by {
        lemma_short_total(mapper::grant_flows(entry), worth);
    }
    lemma_no_sum(statement.cash_grants@, grants);
    let fees = total_of(mapper::fee_rule(), worth);
    assert forall|entry: Fee| #[trigger] fees(entry) == 0 by {
        lemma_short_total(mapper::fee_flows(entry), worth);
    }
    lemma_no_sum(statement.fees@, fees);
    let taxes = total_of(mapper::tax_agent_withholding_rule(), worth);
    assert forall|entry: TaxAgentWithholding| #[trigger] taxes(entry) == 0 by {
        lemma_short_total(mapper::tax_agent_withholding_flows(entry), worth);
    }
    lemma_no_sum(statement.tax_agent_withholdings@, taxes);
}

/// The money that the purchases of a statement take out is the sum of their volumes.
pub proof fn purchases_take_out_their_volumes(statement: BrokerStatement, money: spec_fn(
    Cash,
) -> int)
    requires
        counts_money(money),
    ensures
        laws::total(
            order::ordered(mapper::statement_flows(statement)),
            moved_by(Operation::BuyTrade, money),
        ) == -sum(statement.stock_buys@, purchase_volume(money)),
{
    let worth = moved_by(Operation::BuyTrade, money);
    let names = statement.instrument_info.names@;
    lemma_statement_total(statement, worth);
    lemma_no_trades(statement, Operation::BuyTrade, money);
    let payments = total_of(mapper::cash_flow_rule(names), worth);
    assert forall|entry: CashFlow| #[trigger] payments(entry) == 0 by {
        money_of_a_payment(names, entry, money);
    }
    lemma_no_sum(statement.cash_flows@, payments);
    let exchanges = total_of(mapper::forex_trade_rule(), worth);
    assert forall|entry: ForexTrade| #[trigger] exchanges(entry) == 0 by {
        money_of_an_exchange(entry, money);
    }
    lemma_no_sum(statement.forex_trades@, exchanges);
    let sales = total_of(mapper::stock_sell_rule(names), worth);
    assert forall|entry: StockSell| #[trigger] sales(entry) == 0 by {
        money_of_a_sale(
            broker_statement::instrument_name(names, entry.original_symbol@),
            entry,
            money,
        );
    }
    lemma_no_sum(statement.stock_sells@, sales);
    let purchases = total_of(mapper::stock_buy_rule(names), worth);
    assert forall|entry: StockBuy| #[trigger] purchases(entry) == -purchase_volume(money)(entry) by {
        money_of_a_purchase(
            broker_statement::instrument_name(names, entry.original_symbol@),
            entry,
            money,
        );
    }
    lemma_opposite_sum(statement.stock_buys@, purchases, purchase_volume(money));
}

/// The money that the sales of a statement bring in is the sum of their volumes.
pub proof fn sales_bring_in_their_volumes(statement: BrokerStatement, money: spec_fn(Cash) -> int)
    requires
        counts_money(money),
    ensures
        laws::total(
            order::ordered(mapper::statement_flows(statement)),
            moved_by(Operation::SellTrade, money),
        ) == sum(statement.stock_sells@, sale_volume(money)),
{
    let worth = moved_by(Operation::SellTrade, money);
    let names = statement.instrument_info.names@;
    lemma_statement_total(statement, worth);
    lemma_no_trades(statement, Operation::SellTrade, money);
    let payments = total_of(mapper::cash_flow_rule(names), worth);
    assert forall|entry: CashFlow| #[trigger] payments(entry) == 0 by {
        money_of_a_payment(names, entry, money);
    }
    lemma_no_sum(statement.cash_flows@, payments);
    let exchanges = total_of(mapper::forex_trade_rule(), worth);
    assert forall|entry: ForexTrade| #[trigger] exchanges(entry) == 0 by {
        money_of_an_exchange(entry, money);
    }
    lemma_no_sum(statement.forex_trades@, exchanges);
    let sales = total_of(mapper::stock_sell_rule(names), worth);
    assert forall|entry: StockSell| #[trigger] sales(entry) == sale_volume(money)(entry) by {
        money_of_a_sale(
            broker_statement::instrument_name(names, entry.original_symbol@),
            entry,
            money,
        );
    }
    lemma_same_sum(statement.stock_sells@, sales, sale_volume(money));
    let purchases = total_of(mapper::stock_buy_rule(names), worth);
    assert forall|entry: StockBuy| #[trigger] purchases(entry) == 0 by {
        money_of_a_purchase(
            broker_statement::instrument_name(names, entry.original_symbol@),
            entry,
            money,
        );
    }
    lemma_no_sum(statement.stock_buys@, purchases);
}

/// The money that the commissions of a statement take out is the sum of what was charged for its
/// payments, exchanges, sales and purchases, in each currency.
pub proof fn commissions_take_out_what_was_charged(statement: BrokerStatement, money: spec_fn(
    Cash,
) -> int)
    requires
        counts_money(money),
    ensures
        laws::total(
            order::ordered(mapper::statement_flows(statement)),
            moved_by(Operation::Commission, money),
        ) == -(sum(statement.cash_flows@, payment_commission(money)) + sum(
            statement.forex_trades@,
            exchange_commission(money),
        ) + sum(statement.stock_sells@, sale_commission(money)) + sum(
            statement.stock_buys@,
            purchase_commission(money),
        )),
{
    let worth = moved_by(Operation::Commission, money);
    let names = statement.instrument_info.names@;
    lemma_statement_total(statement, worth);
    lemma_no_trades(statement, Operation::Commission, money);
    let payments = total_of(mapper::cash_flow_rule(names), worth);
    assert forall|entry: CashFlow| #[trigger] payments(entry) == -payment_commission(money)(
        entry,
    ) by {
        money_of_a_payment(names, entry, money);
    }
    lemma_opposite_sum(statement.cash_flows@, payments, payment_commission(money));
    let exchanges = total_of(mapper::forex_trade_rule(), worth);
    assert forall|entry: ForexTrade| #[trigger] exchanges(entry) == -exchange_commission(money)(
        entry,
    ) by {
        money_of_an_exchange(entry, money);
    }
    lemma_opposite_sum(statement.forex_trades@, exchanges, exchange_commission(money));
    let sales = total_of(mapper::stock_sell_rule(names), worth);
    assert forall|entry: StockSell| #[trigger] sales(entry) == -sale_commission(money)(entry) by {
        money_of_a_sale(
            broker_statement::instrument_name(names, entry.original_symbol@),
            entry,
            money,
        );
    }
    lemma_opposite_sum(statement.stock_sells@, sales, sale_commission(money));
    let purchases = total_of(mapper::stock_buy_rule(names), worth);
    assert forall|entry: StockBuy| #[trigger] purchases(entry) == -purchase_commission(money)(
        entry,
    ) by {
        money_of_a_purchase(
            broker_statement::instrument_name(names, entry.original_symbol@),
            entry,
            money,
        );
    }
    lemma_opposite_sum(statement.stock_buys@, purchases, purchase_commission(money));
}

// What one entry of a statement brings to the account, or takes from it where it is negative.

pub open spec fn deposit_effect(money: spec_fn(Cash) -> int) -> spec_fn(CashAssets) -> int {
    |assets: CashAssets| money(assets.cash)
}

pub open spec fn interest_effect(money: spec_fn(Cash) -> int) -> spec_fn(IdleCashInterest) -> int {
    |interest: IdleCashInterest| money(interest.amount)
}

pub open spec fn grant_effect(money: spec_fn(Cash) -> int) -> spec_fn(CashGrant) -> int {
    |grant: CashGrant| money(grant.amount)
}

pub open spec fn payment_effect(money: spec_fn(Cash) -> int) -> spec_fn(CashFlow) -> int {
    |payment: CashFlow| money(payment.amount) - payment_commission(money)(payment)
}

pub open spec fn exchange_effect(money: spec_fn(Cash) -> int) -> spec_fn(ForexTrade) -> int {
    |trade: ForexTrade| -money(trade.from) - money(trade.commission)
}

pub open spec fn sale_effect(money: spec_fn(Cash) -> int) -> spec_fn(StockSell) -> int {
    |trade: StockSell| sale_volume(money)(trade) - sale_commission(money)(trade)
}

pub open spec fn purchase_effect(money: spec_fn(Cash) -> int) -> spec_fn(StockBuy) -> int {
    |trade: StockBuy| -purchase_volume(money)(trade) - purchase_commission(money)(trade)
}

pub open spec fn fee_effect(money: spec_fn(Cash) -> int) -> spec_fn(Fee) -> int {
    |fee: Fee| -taken(money, fee.amount)
}

pub open spec fn tax_effect(money: spec_fn(Cash) -> int) -> spec_fn(TaxAgentWithholding) -> int {
    |tax: TaxAgentWithholding| -taken(money, tax.amount)
}

/// The cash flow of an account accounts for all of its money: the amounts add up to what the
/// statement put in, earned and sold, less what it took out, bought and was charged.
pub proof fn amounts_add_up_to_the_statement(statement: BrokerStatement, money: spec_fn(Cash) -> int)
    requires
        counts_money(money),
    ensures
        laws::total(order::ordered(mapper::statement_flows(statement)), moved(money)) == sum(
            statement.deposits_and_withdrawals@,
            deposit_effect(money),
        ) + sum(statement.idle_cash_interest@, interest_effect(money)) + sum(
            statement.dividends@,
            dividend_after_tax(money),
        ) + sum(statement.cash_grants@, grant_effect(money)) + sum(
            statement.cash_flows@,
            payment_effect(money),
        ) + sum(statement.forex_trades@, exchange_effect(money)) + sum(
            statement.stock_sells@,
            sale_effect(money),
        ) + sum(statement.stock_buys@, purchase_effect(money)) + sum(
            statement.fees@,
            fee_effect(money),
        ) + sum(statement.tax_agent_withholdings@, tax_effect(money)),
{
    let worth = moved(money);
    let names = statement.instrument_info.names@;
    lemma_statement_total(statement, worth);
    let deposits = total_of(mapper::deposit_or_withdrawal_rule(), worth);
    assert forall|entry: CashAssets| #[trigger] deposits(entry) == deposit_effect(money)(entry) by {
        money_laws::deposit_is_what_is_positive(entry);
        lemma_short_total(mapper::deposit_or_withdrawal_flows(entry), worth);
    }
    lemma_same_sum(statement.deposits_and_withdrawals@, deposits, deposit_effect(money));
    let interest = total_of(mapper::interest_rule(), worth);
    assert forall|entry: IdleCashInterest| #[trigger]
        interest(entry) == interest_effect(money)(entry) by {
        lemma_short_total(mapper::interest_flows(entry), worth);
    }
    lemma_same_sum(statement.idle_cash_interest@, interest, interest_effect(money));
    let dividends = total_of(mapper::dividend_rule(names), worth);
    assert forall|entry: Dividend| #[trigger] dividends(entry) == dividend_after_tax(money)(
        entry,
    ) by {
        money_of_a_dividend(names, entry, money);
    }
    lemma_same_sum(statement.dividends@, dividends, dividend_after_tax(money));
    let grants = total_of(mapper::grant_rule(), worth);
    assert forall|entry: CashGrant| #[trigger] grants(entry) == grant_effect(money)(entry) by {
        lemma_short_total(mapper::grant_flows(entry), worth);
    }
    lemma_same_sum(statement.cash_grants@, grants, grant_effect(money));
    let payments = total_of(mapper::cash_flow_rule(names), worth);
    assert forall|entry: CashFlow| #[trigger] payments(entry) == payment_effect(money)(entry) by {
        money_of_a_payment(names, entry, money);
    }
    lemma_same_sum(statement.cash_flows@, payments, payment_effect(money));
    let exchanges = total_of(mapper::forex_trade_rule(), worth);
    assert forall|entry: ForexTrade| #[trigger] exchanges(entry) == exchange_effect(money)(
        entry,
    ) by {
        money_of_an_exchange(entry, money);
    }
    lemma_same_sum(statement.forex_trades@, exchanges, exchange_effect(money));
    let sales = total_of(mapper::stock_sell_rule(names), worth);
    assert forall|entry: StockSell| #[trigger] sales(entry) == sale_effect(money)(entry) by {
        money_of_a_sale(
            broker_statement::instrument_name(names, entry.original_symbol@),
            entry,
            money,
        );
    }
    lemma_same_sum(statement.stock_sells@, sales, sale_effect(money));
    let purchases = total_of(mapper::stock_buy_rule(names), worth);
    assert forall|entry: StockBuy| #[trigger] purchases(entry) == purchase_effect(money)(entry) by {
        money_of_a_purchase(
            broker_statement::instrument_name(names, entry.original_symbol@),
            entry,
            money,
        );
    }
    lemma_same_sum(statement.stock_buys@, purchases, purchase_effect(money));
    let fees = total_of(mapper::fee_rule(), worth);
    assert forall|entry: Fee| #[trigger] fees(entry) == fee_effect(money)(entry) by {
        money_of_a_fee(entry, money);
    }
    lemma_same_sum(statement.fees@, fees, fee_effect(money));
    let taxes = total_of(mapper::tax_agent_withholding_rule(), worth);
    assert forall|entry: TaxAgentWithholding| #[trigger] taxes(entry) == tax_effect(money)(
        entry,
    ) by {
        money_of_a_tax(entry, money);
    }
    lemma_same_sum(statement.tax_agent_withholdings@, taxes, tax_effect(money));
}

} // verus!

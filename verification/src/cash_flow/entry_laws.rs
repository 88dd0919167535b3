//! In which order the entries of a statement are taken.

use vstd::prelude::*;

use crate::broker_statement;
use crate::broker_statement::BrokerStatement;
use crate::cash_flow::mapper;

verus! {

/// Whether two statements name the instruments alike and have the same entries of the first `kinds`
/// kinds.
pub open spec fn begin_alike(a: BrokerStatement, b: BrokerStatement, kinds: int) -> bool {
    &&& a.instrument_info.names@ == b.instrument_info.names@
    &&& kinds > 0 ==> a.deposits_and_withdrawals@ == b.deposits_and_withdrawals@
    &&& kinds > 1 ==> a.idle_cash_interest@ == b.idle_cash_interest@
    &&& kinds > 2 ==> a.dividends@ == b.dividends@
    &&& kinds > 3 ==> a.cash_grants@ == b.cash_grants@
    &&& kinds > 4 ==> a.cash_flows@ == b.cash_flows@
    &&& kinds > 5 ==> a.forex_trades@ == b.forex_trades@
    &&& kinds > 6 ==> a.stock_sells@ == b.stock_sells@
    &&& kinds > 7 ==> a.stock_buys@ == b.stock_buys@
    &&& kinds > 8 ==> a.fees@ == b.fees@
}

/// Whether a statement has entries of the first `kinds` kinds only.
pub open spec fn ends_after(statement: BrokerStatement, kinds: int) -> bool {
    &&& kinds <= 0 ==> statement.deposits_and_withdrawals@.len() == 0
    &&& kinds <= 1 ==> statement.idle_cash_interest@.len() == 0
    &&& kinds <= 2 ==> statement.dividends@.len() == 0
    &&& kinds <= 3 ==> statement.cash_grants@.len() == 0
    &&& kinds <= 4 ==> statement.cash_flows@.len() == 0
    &&& kinds <= 5 ==> statement.forex_trades@.len() == 0
    &&& kinds <= 6 ==> statement.stock_sells@.len() == 0
    &&& kinds <= 7 ==> statement.stock_buys@.len() == 0
    &&& kinds <= 8 ==> statement.fees@.len() == 0
    &&& kinds <= 9 ==> statement.tax_agent_withholdings@.len() == 0
}

/// A statement without entries moves no money.
pub proof fn empty_statement_moves_nothing(statement: BrokerStatement)
    requires
        ends_after(statement, 0),
    ensures
        mapper::statement_flows(statement).len() == 0,
{
}

/// A deposit or a withdrawal comes behind those before it.
pub proof fn last_deposit_or_withdrawal_comes_last(before: BrokerStatement, after: BrokerStatement)
    requires
        begin_alike(before, after, 0),
        ends_after(before, 1),
        ends_after(after, 1),
        after.deposits_and_withdrawals@.len() > 0,
        before.deposits_and_withdrawals@ == after.deposits_and_withdrawals@.drop_last(),
    ensures
        ({
            let last = after.deposits_and_withdrawals@.last();
            mapper::statement_flows(after) == mapper::statement_flows(before)
                + mapper::deposit_or_withdrawal_flows(last)
        }),
{
    let last = after.deposits_and_withdrawals@.last();
    assert(mapper::flattened(after.deposits_and_withdrawals@, mapper::deposit_or_withdrawal_rule())
        == mapper::flattened(before.deposits_and_withdrawals@, mapper::deposit_or_withdrawal_rule())
        + mapper::deposit_or_withdrawal_flows(last));
    assert(mapper::statement_flows(after) =~= mapper::statement_flows(before)
        + mapper::deposit_or_withdrawal_flows(last));
}

/// Interest comes behind the interest before it, and behind deposits and withdrawals.
pub proof fn last_interest_comes_last(before: BrokerStatement, after: BrokerStatement)
    requires
        begin_alike(before, after, 1),
        ends_after(before, 2),
        ends_after(after, 2),
        after.idle_cash_interest@.len() > 0,
        before.idle_cash_interest@ == after.idle_cash_interest@.drop_last(),
    ensures
        ({
            let last = after.idle_cash_interest@.last();
            mapper::statement_flows(after) == mapper::statement_flows(before)
                + mapper::interest_flows(last)
        }),
{
    let last = after.idle_cash_interest@.last();
    assert(mapper::flattened(after.idle_cash_interest@, mapper::interest_rule())
        == mapper::flattened(before.idle_cash_interest@, mapper::interest_rule())
        + mapper::interest_flows(last));
    assert(mapper::statement_flows(after) =~= mapper::statement_flows(before)
        + mapper::interest_flows(last));
}

/// A dividend comes behind the dividends before it, and behind the kinds up to interest.
pub proof fn last_dividend_comes_last(before: BrokerStatement, after: BrokerStatement)
    requires
        begin_alike(before, after, 2),
        ends_after(before, 3),
        ends_after(after, 3),
        after.dividends@.len() > 0,
        before.dividends@ == after.dividends@.drop_last(),
    ensures
        ({
            let names = after.instrument_info.names@;
            let last = after.dividends@.last();
            mapper::statement_flows(after) == mapper::statement_flows(before)
                + mapper::dividend_flows(names, last)
        }),
{
    let names = after.instrument_info.names@;
    let last = after.dividends@.last();
    assert(mapper::flattened(after.dividends@, mapper::dividend_rule(names))
        == mapper::flattened(before.dividends@, mapper::dividend_rule(names))
        + mapper::dividend_flows(names, last));
    assert(mapper::statement_flows(after) =~= mapper::statement_flows(before)
        + mapper::dividend_flows(names, last));
}

/// A grant comes behind the grants before it, and behind the kinds up to dividends.
pub proof fn last_grant_comes_last(before: BrokerStatement, after: BrokerStatement)
    requires
        begin_alike(before, after, 3),
        ends_after(before, 4),
        ends_after(after, 4),
        after.cash_grants@.len() > 0,
        before.cash_grants@ == after.cash_grants@.drop_last(),
    ensures
        ({
            let last = after.cash_grants@.last();
            mapper::statement_flows(after) == mapper::statement_flows(before)
                + mapper::grant_flows(last)
        }),
{
    let last = after.cash_grants@.last();
    assert(mapper::flattened(after.cash_grants@, mapper::grant_rule())
        == mapper::flattened(before.cash_grants@, mapper::grant_rule())
        + mapper::grant_flows(last));
    assert(mapper::statement_flows(after) =~= mapper::statement_flows(before)
        + mapper::grant_flows(last));
}

/// A payment comes behind the payments before it, and behind the kinds up to grants.
pub proof fn last_payment_comes_last(before: BrokerStatement, after: BrokerStatement)
    requires
        begin_alike(before, after, 4),
        ends_after(before, 5),
        ends_after(after, 5),
        after.cash_flows@.len() > 0,
        before.cash_flows@ == after.cash_flows@.drop_last(),
    ensures
        ({
            let names = after.instrument_info.names@;
            let last = after.cash_flows@.last();
            mapper::statement_flows(after) == mapper::statement_flows(before)
                + mapper::cash_flow_flows(names, last)
        }),
{
    let names = after.instrument_info.names@;
    let last = after.cash_flows@.last();
    assert(mapper::flattened(after.cash_flows@, mapper::cash_flow_rule(names))
        == mapper::flattened(before.cash_flows@, mapper::cash_flow_rule(names))
        + mapper::cash_flow_flows(names, last));
    assert(mapper::statement_flows(after) =~= mapper::statement_flows(before)
        + mapper::cash_flow_flows(names, last));
}

/// An exchange comes behind the exchanges before it, and behind the kinds up to payments.
pub proof fn last_exchange_comes_last(before: BrokerStatement, after: BrokerStatement)
    requires
        begin_alike(before, after, 5),
        ends_after(before, 6),
        ends_after(after, 6),
        after.forex_trades@.len() > 0,
        before.forex_trades@ == after.forex_trades@.drop_last(),
    ensures
        ({
            let last = after.forex_trades@.last();
            mapper::statement_flows(after) == mapper::statement_flows(before)
                + mapper::forex_trade_flows(last)
        }),
{
    let last = after.forex_trades@.last();
    assert(mapper::flattened(after.forex_trades@, mapper::forex_trade_rule())
        == mapper::flattened(before.forex_trades@, mapper::forex_trade_rule())
        + mapper::forex_trade_flows(last));
    assert(mapper::statement_flows(after) =~= mapper::statement_flows(before)
        + mapper::forex_trade_flows(last));
}

/// A sale comes behind the sales before it, and behind the kinds up to exchanges.
pub proof fn last_sale_comes_last(before: BrokerStatement, after: BrokerStatement)
    requires
        begin_alike(before, after, 6),
        ends_after(before, 7),
        ends_after(after, 7),
        after.stock_sells@.len() > 0,
        before.stock_sells@ == after.stock_sells@.drop_last(),
    ensures
        ({
            let names = after.instrument_info.names@;
            let last = after.stock_sells@.last();
            let name = broker_statement::instrument_name(names, last.original_symbol@);
            mapper::statement_flows(after) == mapper::statement_flows(before)
                + mapper::stock_sell_flows(name, last)
        }),
{
    let names = after.instrument_info.names@;
    let last = after.stock_sells@.last();
    let name = broker_statement::instrument_name(names, last.original_symbol@);
    assert(mapper::flattened(after.stock_sells@, mapper::stock_sell_rule(names))
        == mapper::flattened(before.stock_sells@, mapper::stock_sell_rule(names))
        + mapper::stock_sell_flows(name, last));
    assert(mapper::statement_flows(after) =~= mapper::statement_flows(before)
        + mapper::stock_sell_flows(name, last));
}

/// A purchase comes behind the purchases before it, and behind the kinds up to sales.
pub proof fn last_purchase_comes_last(before: BrokerStatement, after: BrokerStatement)
    requires
        begin_alike(before, after, 7),
        ends_after(before, 8),
        ends_after(after, 8),
        after.stock_buys@.len() > 0,
        before.stock_buys@ == after.stock_buys@.drop_last(),
    ensures
        ({
            let names = after.instrument_info.names@;
            let last = after.stock_buys@.last();
            let name = broker_statement::instrument_name(names, last.original_symbol@);
            mapper::statement_flows(after) == mapper::statement_flows(before)
                + mapper::stock_buy_flows(name, last)
        }),
{
    let names = after.instrument_info.names@;
    let last = after.stock_buys@.last();
    let name = broker_statement::instrument_name(names, last.original_symbol@);
    assert(mapper::flattened(after.stock_buys@, mapper::stock_buy_rule(names))
        == mapper::flattened(before.stock_buys@, mapper::stock_buy_rule(names))
        + mapper::stock_buy_flows(name, last));
    assert(mapper::statement_flows(after) =~= mapper::statement_flows(before)
        + mapper::stock_buy_flows(name, last));
}

/// A fee comes behind the fees before it, and behind the kinds up to purchases.
pub proof fn last_fee_comes_last(before: BrokerStatement, after: BrokerStatement)
    requires
        begin_alike(before, after, 8),
        ends_after(before, 9),
        ends_after(after, 9),
        after.fees@.len() > 0,
        before.fees@ == after.fees@.drop_last(),
    ensures
        ({
            let last = after.fees@.last();
            mapper::statement_flows(after) == mapper::statement_flows(before)
                + mapper::fee_flows(last)
        }),
{
    let last = after.fees@.last();
    assert(mapper::flattened(after.fees@, mapper::fee_rule())
        == mapper::flattened(before.fees@, mapper::fee_rule())
        + mapper::fee_flows(last));
    assert(mapper::statement_flows(after) =~= mapper::statement_flows(before)
        + mapper::fee_flows(last));
}

/// A withheld tax comes behind all else.
pub proof fn last_tax_comes_last(before: BrokerStatement, after: BrokerStatement)
    requires
        begin_alike(before, after, 9),
        ends_after(before, 10),
        ends_after(after, 10),
        after.tax_agent_withholdings@.len() > 0,
        before.tax_agent_withholdings@ == after.tax_agent_withholdings@.drop_last(),
    ensures
        ({
            let last = after.tax_agent_withholdings@.last();
            mapper::statement_flows(after) == mapper::statement_flows(before)
                + mapper::tax_agent_withholding_flows(last)
        }),
{
    let last = after.tax_agent_withholdings@.last();
    assert(mapper::flattened(after.tax_agent_withholdings@, mapper::tax_agent_withholding_rule())
        == mapper::flattened(before.tax_agent_withholdings@, mapper::tax_agent_withholding_rule())
        + mapper::tax_agent_withholding_flows(last));
    assert(mapper::statement_flows(after) =~= mapper::statement_flows(before)
        + mapper::tax_agent_withholding_flows(last));
}

} // verus!

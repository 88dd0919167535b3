//! What holds of the cash flow of every statement.

use vstd::prelude::*;

use crate::broker_statement;
use crate::broker_statement::BrokerStatement;
use crate::cash_flow::{mapper, order};
use crate::currency::Cash;

verus! {

/// What the amounts of a cash flow may be: only a currency exchange has a second one, what comes
/// in is a deposit and what does not is a withdrawal, and no sale and no commission is zero.
pub open spec fn is_plausible(flow: mapper::CashFlowModel) -> bool {
    &&& flow.sibling_amount is Some <==> flow.operation is ForexTrade
    &&& flow.operation is Deposit ==> flow.amount.amount.signed() > 0
    &&& flow.operation is Withdrawal ==> flow.amount.amount.signed() <= 0
    &&& flow.operation is SellTrade ==> flow.amount.amount.signed() != 0
    &&& flow.operation is Commission ==> flow.amount.amount.signed() != 0
}

pub open spec fn all_plausible(flows: Seq<mapper::CashFlowModel>) -> bool {
    forall|i: int| 0 <= i < flows.len() ==> is_plausible(#[trigger] flows[i])
}

proof fn lemma_flattened_plausible<T>(
    items: Seq<T>,
    flows: spec_fn(T) -> Seq<mapper::CashFlowModel>,
)
    requires
        forall|item: T| all_plausible(#[trigger] flows(item)),
    ensures
        all_plausible(mapper::flattened(items, flows)),
    decreases items.len(),
{
    if items.len() > 0 {
        lemma_flattened_plausible(items.drop_last(), flows);
        assert(all_plausible(flows(items.last())));
    }
}

/// The amounts of the cash flows of a statement are what their operations make of them.
pub proof fn statement_flows_are_plausible(statement: BrokerStatement)
    ensures
        all_plausible(mapper::statement_flows(statement)),
{
    let names = statement.instrument_info.names@;
    lemma_flattened_plausible(
        statement.deposits_and_withdrawals@,
        mapper::deposit_or_withdrawal_rule(),
    );
    lemma_flattened_plausible(statement.idle_cash_interest@, mapper::interest_rule());
    lemma_flattened_plausible(statement.dividends@, mapper::dividend_rule(names));
    lemma_flattened_plausible(statement.cash_grants@, mapper::grant_rule());
    lemma_flattened_plausible(statement.cash_flows@, mapper::cash_flow_rule(names));
    lemma_flattened_plausible(statement.forex_trades@, mapper::forex_trade_rule());
    lemma_flattened_plausible(statement.stock_sells@, mapper::stock_sell_rule(names));
    lemma_flattened_plausible(statement.stock_buys@, mapper::stock_buy_rule(names));
    lemma_flattened_plausible(statement.fees@, mapper::fee_rule());
    lemma_flattened_plausible(
        statement.tax_agent_withholdings@,
        mapper::tax_agent_withholding_rule(),
    );
}

/// The amounts that the cash flow of an account lists are what their operations make of them.
pub proof fn listed_flows_are_plausible(statement: BrokerStatement)
    ensures
        all_plausible(order::ordered(mapper::statement_flows(statement))),
{
    broadcast use vstd::seq_lib::group_to_multiset_ensures;

    let flows = mapper::statement_flows(statement);
    let list = order::ordered(flows);
    statement_flows_are_plausible(statement);
    order::ordering_keeps_the_flows(flows);
    assert forall|i: int| 0 <= i < list.len() implies is_plausible(#[trigger] list[i]) by {
        assert(list.contains(list[i]));
        assert(list.to_multiset().count(list[i]) > 0);
        assert(flows.contains(list[i]));
    }
}

/// The sum of what the amounts count for.
pub open spec fn total(
    flows: Seq<mapper::CashFlowModel>,
    worth: spec_fn(mapper::CashFlowModel) -> int,
) -> int
    decreases flows.len(),
{
    if flows.len() == 0 {
        0
    } else {
        total(flows.drop_last(), worth) + worth(flows.last())
    }
}

proof fn lemma_total_inserted(
    list: Seq<mapper::CashFlowModel>,
    flow: mapper::CashFlowModel,
    worth: spec_fn(mapper::CashFlowModel) -> int,
)
    ensures
        total(order::inserted(list, flow), worth) == total(list, worth) + worth(flow),
    decreases list.len(),
{
    if list.len() > 0 && order::precedes(flow, list.last()) {
        lemma_total_inserted(list.drop_last(), flow, worth);
        let rest = order::inserted(list.drop_last(), flow);
        assert(rest.push(list.last()).drop_last() =~= rest);
    } else {
        assert(list.push(flow).drop_last() =~= list);
    }
}

/// Whatever the cash flows count for, putting them in order does not change their sum.
pub proof fn ordering_keeps_totals(
    flows: Seq<mapper::CashFlowModel>,
    worth: spec_fn(mapper::CashFlowModel) -> int,
)
    ensures
        total(order::ordered(flows), worth) == total(flows, worth),
    decreases flows.len(),
{
    if flows.len() > 0 {
        ordering_keeps_totals(flows.drop_last(), worth);
        lemma_total_inserted(order::ordered(flows.drop_last()), flows.last(), worth);
    }
}

/// A dividend is listed as two payments of its day: the dividend, and the tax where there is one.
pub proof fn dividend_is_listed_as_payments(
    names: Seq<broker_statement::InstrumentName>,
    dividend: broker_statement::Dividend,
)
    requires
        !dividend.skip_from_cash_flow,
    ensures
        mapper::dividend_flows(names, dividend) == mapper::cash_flow_flows(
            names,
            broker_statement::CashFlow {
                date: mapper::on_date(dividend.date),
                amount: dividend.amount,
                type_: broker_statement::CashFlowType::Dividend {
                    date: dividend.date,
                    issuer: dividend.original_issuer,
                },
            },
        ) + if dividend.paid_tax.amount.signed() == 0 {
            Seq::empty()
        } else {
            mapper::cash_flow_flows(
                names,
                broker_statement::CashFlow {
                    date: mapper::on_date(dividend.date),
                    amount: dividend.paid_tax.opposite(),
                    type_: broker_statement::CashFlowType::Tax {
                        date: dividend.date,
                        issuer: dividend.original_issuer,
                    },
                },
            )
        },
{
}

/// A withholding and a refund of one amount cancel each other out.
pub proof fn refund_undoes_withholding(amount: Cash)
    ensures
        broker_statement::Withholding::Refund(amount).withheld()
            == broker_statement::Withholding::Withholding(amount).withheld().opposite(),
        amount.opposite().opposite() == amount,
        amount.opposite().amount.signed() == -amount.amount.signed(),
{
}

/// The contents of a cash flow are those of its fields, and those of a list are those of its cash
/// flows, in their order.
pub proof fn cash_flows_keep_their_contents(flows: Seq<mapper::CashFlow>, i: int)
    requires
        0 <= i < flows.len(),
    ensures
        mapper::models(flows).len() == flows.len(),
        mapper::models(flows)[i].time == flows[i].time,
        mapper::models(flows)[i].operation == flows[i].operation,
        mapper::models(flows)[i].amount == flows[i].amount,
        mapper::models(flows)[i].sibling_amount == flows[i].sibling_amount,
        mapper::models(flows)[i].description == flows[i].description@,
{
}

/// What a mapper has collected is what stands in its list.
pub proof fn collected_flows_stand_in_the_list(collected: mapper::CashFlowMapper, i: int)
    requires
        0 <= i < collected.cash_flows@.len(),
    ensures
        collected.flows().len() == collected.cash_flows@.len(),
        collected.flows()[i] == collected.cash_flows@[i]@,
{
}

/// What was collected before a statement comes first, and what the statement says comes behind it.
pub proof fn earlier_flows_come_first(
    flows: Seq<mapper::CashFlowModel>,
    statement: BrokerStatement,
)
    ensures
        mapper::followed_by(flows, statement) == flows + mapper::statement_flows(statement),
{
    let names = statement.instrument_info.names@;
    let none = Seq::<mapper::CashFlowModel>::empty();
    let a = mapper::flattened(
        statement.deposits_and_withdrawals@,
        mapper::deposit_or_withdrawal_rule(),
    );
    let b = mapper::flattened(statement.idle_cash_interest@, mapper::interest_rule());
    let c = mapper::flattened(statement.dividends@, mapper::dividend_rule(names));
    let d = mapper::flattened(statement.cash_grants@, mapper::grant_rule());
    let e = mapper::flattened(statement.cash_flows@, mapper::cash_flow_rule(names));
    let f = mapper::flattened(statement.forex_trades@, mapper::forex_trade_rule());
    let g = mapper::flattened(statement.stock_sells@, mapper::stock_sell_rule(names));
    let h = mapper::flattened(statement.stock_buys@, mapper::stock_buy_rule(names));
    let i = mapper::flattened(statement.fees@, mapper::fee_rule());
    let j = mapper::flattened(
        statement.tax_agent_withholdings@,
        mapper::tax_agent_withholding_rule(),
    );
    lemma_joined(flows, none, a);
    lemma_joined(flows, none + a, b);
    lemma_joined(flows, none + a + b, c);
    lemma_joined(flows, none + a + b + c, d);
    lemma_joined(flows, none + a + b + c + d, e);
    lemma_joined(flows, none + a + b + c + d + e, f);
    lemma_joined(flows, none + a + b + c + d + e + f, g);
    lemma_joined(flows, none + a + b + c + d + e + f + g, h);
    lemma_joined(flows, none + a + b + c + d + e + f + g + h, i);
    lemma_joined(flows, none + a + b + c + d + e + f + g + h + i, j);
    assert(flows + none =~= flows);
}

proof fn lemma_joined(
    a: Seq<mapper::CashFlowModel>,
    b: Seq<mapper::CashFlowModel>,
    c: Seq<mapper::CashFlowModel>,
)
    ensures
        a + (b + c) == (a + b) + c,
{
    assert(a + (b + c) =~= (a + b) + c);
}

} // verus!

//! What holds of the order of all cash flows.

use vstd::prelude::*;

use crate::broker_statement::BrokerStatement;
use crate::cash_flow::mapper::{self, Operation};
use crate::cash_flow::order;
use crate::time_laws;

verus! {

/// The operations as they are listed within one moment: money that was put in, then earnings, then
/// trades, then commissions, fees and taxes, and money that was taken out at the end.
pub open spec fn listing() -> Seq<Operation> {
    seq![
        Operation::Deposit,
        Operation::Interest,
        Operation::Dividend,
        Operation::Grant,
        Operation::ForexTrade,
        Operation::SellTrade,
        Operation::BuyTrade,
        Operation::RepoDeal,
        Operation::Commission,
        Operation::Fee,
        Operation::Tax,
        Operation::Withdrawal,
    ]
}

/// Whether one operation is a commission and the other one a trade.
pub open spec fn are_trade_and_commission(a: Operation, b: Operation) -> bool {
    ||| a is Commission && (b is ForexTrade || b is SellTrade || b is BuyTrade || b is RepoDeal)
    ||| b is Commission && (a is ForexTrade || a is SellTrade || a is BuyTrade || a is RepoDeal)
}

/// A cash flow stands before another one if its date is earlier, or if the dates are the same and
/// its time is earlier, or if no time tells them apart and its operation comes earlier in the
/// listing. Only a trade and a commission that no time tells apart have no order.
pub proof fn cash_flows_are_ordered_by_time_and_operation(
    a: mapper::CashFlowModel,
    b: mapper::CashFlowModel,
    i: int,
    j: int,
)
    requires
        0 <= i < listing().len() && a.operation == listing()[i],
        0 <= j < listing().len() && b.operation == listing()[j],
    ensures
        order::precedes(a, b) <==> {
            ||| time_laws::is_earlier_date(a.time.date, b.time.date)
            ||| a.time.date == b.time.date && a.time.time is Some && b.time.time is Some
                && time_laws::is_earlier_time(a.time.time->0, b.time.time->0)
            ||| a.time.date == b.time.date && (a.time.time is None || b.time.time is None
                || a.time.time == b.time.time) && !are_trade_and_commission(
                a.operation,
                b.operation,
            ) && i < j
        },
{
    time_laws::dates_are_ordered_by_the_calendar(a.time.date, b.time.date);
}

/// Every operation has its place in the listing.
pub proof fn every_operation_is_in_the_listing(operation: Operation)
    ensures
        listing().len() == 12,
        exists|i: int| 0 <= i < listing().len() && listing()[i] == operation,
{
    let i = operation.place();
    assert(listing()[i] == operation);
}

/// In the ordered list year, month and day never go back.
pub proof fn listed_dates_follow_the_calendar(
    flows: Seq<mapper::CashFlowModel>,
    i: int,
    j: int,
)
    requires
        0 <= i <= j < flows.len(),
    ensures
        !time_laws::is_earlier_date(
            order::ordered(flows)[j].time.date,
            order::ordered(flows)[i].time.date,
        ),
{
    order::ordered_dates_never_go_back(flows, i, j);
    time_laws::dates_are_ordered_by_the_calendar(
        order::ordered(flows)[j].time.date,
        order::ordered(flows)[i].time.date,
    );
}

/// Of two neighbours of one date in the ordered list, hour, minute and second do not go back where
/// both times are known. Where no time tells them apart, the operations follow the listing, except
/// that a commission may stand in front of a trade.
pub proof fn listed_neighbours_follow_the_clock_and_the_listing(
    flows: Seq<mapper::CashFlowModel>,
    k: int,
    i: int,
    j: int,
)
    requires
        0 < k < flows.len(),
        0 <= i < listing().len() && order::ordered(flows)[k - 1].operation == listing()[i],
        0 <= j < listing().len() && order::ordered(flows)[k].operation == listing()[j],
        order::ordered(flows)[k - 1].time.date == order::ordered(flows)[k].time.date,
    ensures
        ({
            let front = order::ordered(flows)[k - 1];
            let back = order::ordered(flows)[k];
            &&& front.time.time is Some && back.time.time is Some ==> !time_laws::is_earlier_time(
                back.time.time->0,
                front.time.time->0,
            )
            &&& front.time.time is None || back.time.time is None || front.time.time
                == back.time.time ==> i <= j || are_trade_and_commission(
                front.operation,
                back.operation,
            )
        }),
{
    order::ordered_neighbours_are_in_order(flows, k);
    cash_flows_are_ordered_by_time_and_operation(
        order::ordered(flows)[k],
        order::ordered(flows)[k - 1],
        j,
        i,
    );
}

/// The dates that the cash flow of an account lists follow the calendar.
pub proof fn statement_dates_follow_the_calendar(statement: BrokerStatement)
    ensures
        ({
            let list = order::ordered(mapper::statement_flows(statement));
            forall|i: int, j: int|
                0 <= i <= j < list.len() ==> !time_laws::is_earlier_date(
                    (#[trigger] list[j]).time.date,
                    (#[trigger] list[i]).time.date,
                )
        }),
{
    let flows = mapper::statement_flows(statement);
    let list = order::ordered(flows);
    order::ordering_keeps_the_flows(flows);
    assert forall|i: int, j: int|
        0 <= i <= j < list.len() implies !time_laws::is_earlier_date(
        (#[trigger] list[j]).time.date,
        (#[trigger] list[i]).time.date,
    ) by {
        listed_dates_follow_the_calendar(flows, i, j);
    }
}

/// A cash flow that comes later goes into the list of the earlier ones, which keep their order. It
/// stands before all that follow it there, and not before the one in front of it.
pub proof fn later_flow_goes_into_the_list(
    flows: Seq<mapper::CashFlowModel>,
    flow: mapper::CashFlowModel,
) -> (point: int)
    ensures
        order::ordered(Seq::empty()) == Seq::<mapper::CashFlowModel>::empty(),
        0 <= point <= order::ordered(flows).len(),
        order::ordered(flows.push(flow)) == order::ordered(flows).insert(point, flow),
        point > 0 ==> !order::precedes(flow, order::ordered(flows)[point - 1]),
        forall|i: int|
            point <= i < order::ordered(flows).len() ==> order::precedes(
                flow,
                #[trigger] order::ordered(flows)[i],
            ),
{
    assert(flows.push(flow).drop_last() =~= flows);
    order::insertion(order::ordered(flows), flow)
}

} // verus!

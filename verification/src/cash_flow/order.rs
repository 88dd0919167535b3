//! The order of cash flows.

use vstd::prelude::*;

use std::cmp::Ordering;

use crate::cash_flow::mapper::{self, CashFlow, Operation};

verus! {

impl Operation {
    /// The place of the operation among those of one moment.
    pub open spec fn place(self) -> int {
        match self {
            Operation::Deposit => 0,
            Operation::Interest => 1,
            Operation::Dividend => 2,
            Operation::Grant => 3,
            Operation::ForexTrade => 4,
            Operation::SellTrade => 5,
            Operation::BuyTrade => 6,
            Operation::RepoDeal => 7,
            Operation::Commission => 8,
            Operation::Fee => 9,
            Operation::Tax => 10,
            Operation::Withdrawal => 11,
        }
    }

    pub open spec fn trades(self) -> bool {
        self is ForexTrade || self is SellTrade || self is BuyTrade || self is RepoDeal
    }

    /// The place of the operation among those of one moment.
    fn rank(self) -> (r: u8)
        ensures
            r == self.place(),
    {
        match self {
            Operation::Deposit => 0,
            Operation::Interest => 1,
            Operation::Dividend => 2,
            Operation::Grant => 3,
            Operation::ForexTrade => 4,
            Operation::SellTrade => 5,
            Operation::BuyTrade => 6,
            Operation::RepoDeal => 7,
            Operation::Commission => 8,
            Operation::Fee => 9,
            Operation::Tax => 10,
            Operation::Withdrawal => 11,
        }
    }

    /// Whether the operation is a trade.
    pub fn is_trade(self) -> (r: bool)
        ensures
            r == self.trades(),
    {
        match self {
            Operation::ForexTrade | Operation::SellTrade | Operation::BuyTrade
            | Operation::RepoDeal => true,
            _ => false,
        }
    }
}

/// Whether one of the operations is a trade and the other one a commission.
pub open spec fn is_trade_with_commission(a: Operation, b: Operation) -> bool {
    a is Commission && b.trades() || b is Commission && a.trades()
}

/// Whether a cash flow stands before another one: by its date, then by its time where both are
/// known and differ, then by its operation. A commission and a trade of one moment keep the order
/// they have.
pub open spec fn precedes(a: mapper::CashFlowModel, b: mapper::CashFlowModel) -> bool {
    if a.time.date != b.time.date {
        a.time.date.ordinal() < b.time.date.ordinal()
    } else if a.time.time is Some && b.time.time is Some && a.time.time != b.time.time {
        a.time.time->0.ordinal() < b.time.time->0.ordinal()
    } else if is_trade_with_commission(a.operation, b.operation) {
        false
    } else {
        a.operation.place() < b.operation.place()
    }
}

/// Compares two cash flows by the order in which they are listed.
pub fn cash_flow_comparator(a: &CashFlow, b: &CashFlow) -> (r: Ordering)
    ensures
        r is Less <==> precedes(a@, b@),
        r is Greater <==> precedes(b@, a@),
{
    if a.time.date != b.time.date {
        return if a.time.date.is_before(b.time.date) {
            Ordering::Less
        } else {
            Ordering::Greater
        };
    }
    if let (Some(a_time), Some(b_time)) = (a.time.time, b.time.time) {
        if a_time != b_time {
            return if a_time.is_before(b_time) {
                Ordering::Less
            } else {
                Ordering::Greater
            };
        }
    }
    if a.operation == Operation::Commission && b.operation.is_trade() || b.operation
        == Operation::Commission && a.operation.is_trade() {
        return Ordering::Equal;
    }
    let a_rank: u8 = a.operation.rank();
    let b_rank: u8 = b.operation.rank();
    if a_rank < b_rank {
        Ordering::Less
    } else if a_rank > b_rank {
        Ordering::Greater
    } else {
        Ordering::Equal
    }
}

/// Whether a cash flow stands before another one.
fn is_before(a: &CashFlow, b: &CashFlow) -> (r: bool)
    ensures
        r == precedes(a@, b@),
{
    match cash_flow_comparator(a, b) {
        Ordering::Less => true,
        _ => false,
    }
}

/// The list with one more cash flow: it goes before those at the end of the list that it precedes,
/// and behind all others.
pub open spec fn inserted(
    list: Seq<mapper::CashFlowModel>,
    flow: mapper::CashFlowModel,
) -> Seq<mapper::CashFlowModel>
    decreases list.len(),
{
    if list.len() > 0 && precedes(flow, list.last()) {
        inserted(list.drop_last(), flow).push(list.last())
    } else {
        list.push(flow)
    }
}

/// The cash flows in order.
pub open spec fn ordered(flows: Seq<mapper::CashFlowModel>) -> Seq<mapper::CashFlowModel>
    decreases flows.len(),
{
    if flows.len() == 0 {
        flows
    } else {
        inserted(ordered(flows.drop_last()), flows.last())
    }
}

/// The position at which a cash flow goes into a list.
proof fn lemma_insertion_point(
    list: Seq<mapper::CashFlowModel>,
    flow: mapper::CashFlowModel,
    point: int,
)
    requires
        0 <= point <= list.len(),
        point > 0 ==> !precedes(flow, list[point - 1]),
        forall|i: int| point <= i < list.len() ==> precedes(flow, #[trigger] list[i]),
    ensures
        inserted(list, flow) == list.insert(point, flow),
    decreases list.len(),
{
    if point < list.len() {
        assert(precedes(flow, list[list.len() - 1]));
        lemma_insertion_point(list.drop_last(), flow, point);
        assert(list.drop_last().insert(point, flow).push(list.last()) =~= list.insert(point, flow));
    } else {
        assert(list.push(flow) =~= list.insert(point, flow));
    }
}

/// Puts cash flows in order, one after the other. The result is defined for every list, though the
/// order of cash flows need not be transitive.
pub fn sort_cash_flows(flows: Vec<CashFlow>) -> (r: Vec<CashFlow>)
    ensures
        mapper::models(r@) == ordered(mapper::models(flows@)),
{
    let ghost all = flows@;
    let mut sorted: Vec<CashFlow> = Vec::new();
    assert(mapper::models(sorted@) =~= ordered(mapper::models(all.take(0))));
    for flow in iter: flows
        invariant
            iter.seq() == all,
            mapper::models(sorted@) == ordered(mapper::models(all.take(iter.index() as int))),
    {
        let ghost i = iter.index() as int;
        let ghost list = mapper::models(sorted@);
        let mut point: usize = sorted.len();
        while point > 0 && is_before(&flow, &sorted[point - 1])
            invariant
                point <= sorted@.len(),
                list == mapper::models(sorted@),
                forall|j: int| point <= j < list.len() ==> precedes(flow@, #[trigger] list[j]),
            decreases point,
        {
            point = point - 1;
        }
        proof {
            lemma_insertion_point(list, flow@, point as int);
            assert(mapper::models(all.take(i + 1)).drop_last() =~= mapper::models(all.take(i)));
            assert(mapper::models(sorted@.insert(point as int, flow)) =~= list.insert(
                point as int,
                flow@,
            ));
        }
        sorted.insert(point, flow);
    }
    assert(all.take(all.len() as int) =~= all);
    sorted
}

/// No cash flow stands before itself, and of two cash flows at most one stands before the other.
pub proof fn order_is_asymmetric(a: mapper::CashFlowModel, b: mapper::CashFlowModel)
    ensures
        !precedes(a, a),
        !(precedes(a, b) && precedes(b, a)),
{
}

/// A trade and a commission of one date, of which one has no time or both have the same, are in
/// order either way.
pub proof fn commission_and_trade_are_in_either_order(
    trade: mapper::CashFlowModel,
    commission: mapper::CashFlowModel,
)
    requires
        trade.operation.trades(),
        commission.operation is Commission,
        trade.time.date == commission.time.date,
        trade.time.time is None || commission.time.time is None || trade.time == commission.time,
    ensures
        !precedes(trade, commission),
        !precedes(commission, trade),
{
}

/// The position at which a cash flow goes into a list.
spec fn insertion_point(list: Seq<mapper::CashFlowModel>, flow: mapper::CashFlowModel) -> int
    decreases list.len(),
{
    if list.len() > 0 && precedes(flow, list.last()) {
        insertion_point(list.drop_last(), flow)
    } else {
        list.len() as int
    }
}

proof fn lemma_inserted(list: Seq<mapper::CashFlowModel>, flow: mapper::CashFlowModel)
    ensures
        0 <= insertion_point(list, flow) <= list.len(),
        insertion_point(list, flow) > 0 ==> !precedes(
            flow,
            list[insertion_point(list, flow) - 1],
        ),
        forall|i: int|
            insertion_point(list, flow) <= i < list.len() ==> precedes(flow, #[trigger] list[i]),
        inserted(list, flow) == list.insert(insertion_point(list, flow), flow),
    decreases list.len(),
{
    if list.len() > 0 && precedes(flow, list.last()) {
        lemma_inserted(list.drop_last(), flow);
        let point = insertion_point(list, flow);
        assert forall|i: int| point <= i < list.len() implies precedes(flow, #[trigger] list[i]) by {
            if i < list.len() - 1 {
                assert(list.drop_last()[i] == list[i]);
            }
        }
        assert(list.drop_last().insert(point, flow).push(list.last()) =~= list.insert(point, flow));
    } else {
        assert(list.push(flow) =~= list.insert(list.len() as int, flow));
    }
}

/// A cash flow goes into a list at one position: it stands before all that follow it there, and not
/// before the one in front of it.
pub proof fn insertion(list: Seq<mapper::CashFlowModel>, flow: mapper::CashFlowModel) -> (point:
    int)
    ensures
        0 <= point <= list.len(),
        inserted(list, flow) == list.insert(point, flow),
        point > 0 ==> !precedes(flow, list[point - 1]),
        forall|i: int| point <= i < list.len() ==> precedes(flow, #[trigger] list[i]),
{
    lemma_inserted(list, flow);
    insertion_point(list, flow)
}

/// Putting cash flows in order keeps each of them, as often as it occurs, and adds none.
pub proof fn ordering_keeps_the_flows(flows: Seq<mapper::CashFlowModel>)
    ensures
        ordered(flows).to_multiset() == flows.to_multiset(),
        ordered(flows).len() == flows.len(),
    decreases flows.len(),
{
    broadcast use vstd::seq_lib::group_to_multiset_ensures;

    if flows.len() > 0 {
        let list = ordered(flows.drop_last());
        ordering_keeps_the_flows(flows.drop_last());
        lemma_inserted(list, flows.last());
        assert(flows =~= flows.drop_last().push(flows.last()));
    }
}

/// In the ordered list no cash flow precedes the one in front of it.
pub proof fn ordered_neighbours_are_in_order(flows: Seq<mapper::CashFlowModel>, i: int)
    requires
        0 < i < flows.len(),
    ensures
        !precedes(ordered(flows)[i], ordered(flows)[i - 1]),
    decreases flows.len(),
{
    let list = ordered(flows.drop_last());
    let flow = flows.last();
    let point = insertion_point(list, flow);
    ordering_keeps_the_flows(flows.drop_last());
    lemma_inserted(list, flow);
    if i < point {
        ordered_neighbours_are_in_order(flows.drop_last(), i);
    } else if i > point + 1 {
        ordered_neighbours_are_in_order(flows.drop_last(), i - 1);
    } else if i == point + 1 {
        order_is_asymmetric(flow, list[point]);
    }
}

/// In the ordered list the dates never go back.
pub proof fn ordered_dates_never_go_back(flows: Seq<mapper::CashFlowModel>, i: int, j: int)
    requires
        0 <= i <= j < flows.len(),
    ensures
        ordered(flows)[i].time.date.ordinal() <= ordered(flows)[j].time.date.ordinal(),
    decreases j - i,
{
    if i < j {
        ordered_dates_never_go_back(flows, i, j - 1);
        ordered_neighbours_are_in_order(flows, j);
    }
}

/// Whether the order of the cash flows is transitive. It need not be: a cash flow without a time
/// may stand between two that have one, and a commission between two trades.
pub open spec fn is_consistent(flows: Seq<mapper::CashFlowModel>) -> bool {
    forall|a: mapper::CashFlowModel, b: mapper::CashFlowModel, c: mapper::CashFlowModel|
        flows.contains(a) && flows.contains(b) && flows.contains(c) && !#[trigger] precedes(b, a)
            && !#[trigger] precedes(c, b) ==> !precedes(c, a)
}

/// Whether a list holds the cash flows at the given positions, each position once, with no cash
/// flow in front of one that precedes it, and with those of equal standing as they came.
pub open spec fn is_stably_sorted(
    list: Seq<mapper::CashFlowModel>,
    flows: Seq<mapper::CashFlowModel>,
    positions: Seq<int>,
) -> bool {
    &&& list.len() == flows.len()
    &&& positions.len() == flows.len()
    &&& forall|i: int|
        0 <= i < list.len() ==> 0 <= #[trigger] positions[i] < flows.len() && list[i]
            == flows[positions[i]]
    &&& forall|i: int, j: int|
        0 <= i < j < list.len() ==> #[trigger] positions[i] != #[trigger] positions[j]
    &&& forall|i: int, j: int|
        0 <= i < j < list.len() ==> !precedes(#[trigger] list[j], #[trigger] list[i])
    &&& forall|i: int, j: int|
        0 <= i < j < list.len() && !precedes(list[i], list[j]) ==> #[trigger] positions[i]
            < #[trigger] positions[j]
}

/// Where the order of the cash flows is transitive, they are sorted, and those of equal standing
/// stay as they came.
pub proof fn consistent_flows_are_stably_sorted(flows: Seq<mapper::CashFlowModel>) -> (positions:
    Seq<int>)
    requires
        is_consistent(flows),
    ensures
        is_stably_sorted(ordered(flows), flows, positions),
    decreases flows.len(),
{
    if flows.len() == 0 {
        Seq::empty()
    } else {
        let rest = flows.drop_last();
        let list = ordered(rest);
        let flow = flows.last();
        let point = insertion_point(list, flow);
        assert forall|a: mapper::CashFlowModel| rest.contains(a) implies flows.contains(a) by {
            let k = choose|k: int| 0 <= k < rest.len() && rest[k] == a;
            assert(flows[k] == a);
        }
        let positions = consistent_flows_are_stably_sorted(rest);
        lemma_inserted(list, flow);
        let result = positions.insert(point, rest.len() as int);
        let all = ordered(flows);
        assert forall|i: int| 0 <= i < list.len() implies flows.contains(#[trigger] list[i]) by {
            assert(flows[positions[i]] == list[i]);
        }
        assert(flows.contains(flow)) by {
            assert(flows[flows.len() - 1] == flow);
        }
        assert forall|i: int| 0 <= i < point implies !precedes(flow, #[trigger] list[i]) by {
            if i < point - 1 {
                assert(!precedes(list[point - 1], list[i]));
            }
        }
        assert forall|i: int| 0 <= i < all.len() implies 0 <= #[trigger] result[i] < flows.len()
            && all[i] == flows[result[i]] by {
            if i < point {
                assert(result[i] == positions[i]);
            } else if i > point {
                assert(result[i] == positions[i - 1]);
            }
        }
        assert forall|i: int, j: int| 0 <= i < j < all.len() implies #[trigger] result[i]
            != #[trigger] result[j] by {
            let a = if i < point { i } else { i - 1 };
            let b = if j < point { j } else { j - 1 };
            if i != point && j != point {
                assert(positions[a] != positions[b]);
            }
        }
        assert forall|i: int, j: int| 0 <= i < j < all.len() implies !precedes(
            #[trigger] all[j],
            #[trigger] all[i],
        ) by {
            let a = if i < point { i } else { i - 1 };
            let b = if j < point { j } else { j - 1 };
            if i == point {
                order_is_asymmetric(flow, list[b]);
            } else if j != point {
                assert(!precedes(list[b], list[a]));
            }
        }
        assert forall|i: int, j: int|
            0 <= i < j < all.len() && !precedes(all[i], all[j]) implies #[trigger] result[i]
            < #[trigger] result[j] by {
            let a = if i < point { i } else { i - 1 };
            let b = if j < point { j } else { j - 1 };
            if i == point {
                assert(precedes(flow, list[b]));
            } else if j != point {
                assert(positions[a] < positions[b]);
            }
        }
        result
    }
}

/// The order is transitive where there is no commission and the times of each date are all known or
/// all unknown.
pub proof fn flows_without_commissions_are_consistent(flows: Seq<mapper::CashFlowModel>)
    requires
        forall|i: int| 0 <= i < flows.len() ==> !((#[trigger] flows[i]).operation is Commission),
        forall|i: int, j: int|
            0 <= i < flows.len() && 0 <= j < flows.len() && (#[trigger] flows[i]).time.date == (
            #[trigger] flows[j]).time.date ==> (flows[i].time.time is Some
                <==> flows[j].time.time is Some),
    ensures
        is_consistent(flows),
{
    assert forall|a: mapper::CashFlowModel, b: mapper::CashFlowModel, c: mapper::CashFlowModel|
        flows.contains(a) && flows.contains(b) && flows.contains(c) && !#[trigger] precedes(b, a)
            && !#[trigger] precedes(c, b) implies !precedes(c, a) by {
        let i = choose|i: int| 0 <= i < flows.len() && flows[i] == a;
        let j = choose|j: int| 0 <= j < flows.len() && flows[j] == b;
        let k = choose|k: int| 0 <= k < flows.len() && flows[k] == c;
        assert(!(flows[i].operation is Commission) && !(flows[j].operation is Commission) && !(
        flows[k].operation is Commission));
        crate::time::date_ordinal_is_injective(a.time.date, b.time.date);
        crate::time::date_ordinal_is_injective(b.time.date, c.time.date);
        crate::time::date_ordinal_is_injective(a.time.date, c.time.date);
    }
}

/// Once a commission stands behind the trade of the same moment, nothing that is added later comes
/// between them.
pub proof fn commission_stays_behind_its_trade(
    list: Seq<mapper::CashFlowModel>,
    flow: mapper::CashFlowModel,
    i: int,
)
    requires
        0 <= i < list.len() - 1,
        list[i].operation.trades(),
        list[i + 1].operation is Commission,
        list[i].time == list[i + 1].time,
    ensures
        exists|j: int|
            0 <= j < inserted(list, flow).len() - 1 && #[trigger] inserted(list, flow)[j] == list[i]
                && inserted(list, flow)[j + 1] == list[i + 1],
{
    lemma_inserted(list, flow);
    let point = insertion_point(list, flow);
    if point <= i {
        assert(inserted(list, flow)[i + 1] == list[i]);
    } else {
        if point == i + 1 {
            assert(precedes(flow, list[i + 1]));
            assert(!precedes(flow, list[i]));
        }
        assert(inserted(list, flow)[i] == list[i]);
    }
}

/// Whether two cash flows stand in a list, one behind the other.
pub open spec fn stand_in_order(
    list: Seq<mapper::CashFlowModel>,
    front: mapper::CashFlowModel,
    back: mapper::CashFlowModel,
) -> bool {
    exists|a: int, b: int|
        0 <= a < b < list.len() && #[trigger] list[a] == front && #[trigger] list[b] == back
}

proof fn lemma_inserted_keeps_order(
    list: Seq<mapper::CashFlowModel>,
    flow: mapper::CashFlowModel,
    front: mapper::CashFlowModel,
    back: mapper::CashFlowModel,
)
    requires
        stand_in_order(list, front, back),
    ensures
        stand_in_order(inserted(list, flow), front, back),
{
    lemma_inserted(list, flow);
    let point = insertion_point(list, flow);
    let (a, b) = choose|a: int, b: int|
        0 <= a < b < list.len() && #[trigger] list[a] == front && #[trigger] list[b] == back;
    let c = if a < point {
        a
    } else {
        a + 1
    };
    let d = if b < point {
        b
    } else {
        b + 1
    };
    assert(inserted(list, flow)[c] == front && inserted(list, flow)[d] == back);
}

/// A commission that comes right behind the trade of the same moment stands behind it in the ordered
/// list too. Another trade may stand between them.
pub proof fn listed_commission_stands_behind_its_trade(flows: Seq<mapper::CashFlowModel>, k: int)
    requires
        0 <= k < flows.len() - 1,
        flows[k].operation.trades(),
        flows[k + 1].operation is Commission,
        flows[k].time == flows[k + 1].time,
    ensures
        stand_in_order(ordered(flows), flows[k], flows[k + 1]),
    decreases flows.len(),
{
    let rest = flows.drop_last();
    if k < flows.len() - 2 {
        listed_commission_stands_behind_its_trade(rest, k);
        lemma_inserted_keeps_order(ordered(rest), flows.last(), flows[k], flows[k + 1]);
    } else {
        let earlier = ordered(rest.drop_last());
        let list = ordered(rest);
        let trade = flows[k];
        let commission = flows[k + 1];
        lemma_inserted(earlier, trade);
        let a = insertion_point(earlier, trade);
        assert(list[a] == trade);
        lemma_inserted(list, commission);
        let b = insertion_point(list, commission);
        if b <= a {
            assert(precedes(commission, list[a]));
        }
        assert(ordered(flows)[a] == trade && ordered(flows)[b] == commission);
    }
}

} // verus!

//! How the records of a report become the corporate actions of a statement.

use vstd::prelude::*;

use crate::broker_statement::corporate_actions::{CorporateAction, CorporateActionType};
use crate::broker_statement::ib::corporate_actions as section;
use crate::error;

verus! {

/// Whether two records say something of different splits: the dates, the times of day or the
/// symbols differ.
pub open spec fn are_apart(a: CorporateAction, b: CorporateAction) -> bool {
    ||| a.time.date.year != b.time.date.year
    ||| a.time.date.month != b.time.date.month
    ||| a.time.date.day != b.time.date.day
    ||| a.time.time != b.time.time
    ||| a.symbol@ != b.symbol@
}

/// Two records belong to one split only if they have the same date, the same time of day and the
/// same symbol, and then they do.
pub proof fn records_of_one_split_agree(a: CorporateAction, b: CorporateAction)
    ensures
        section::same_split(a, b) <==> !are_apart(a, b),
        a.time.date != b.time.date ==> !section::same_split(a, b),
        a.time.time != b.time.time ==> !section::same_split(a, b),
        a.symbol@ != b.symbol@ ==> !section::same_split(a, b),
        section::is_stock_split(a) <==> a.action is StockSplit,
{
}

/// Splits whose records stand apart from their neighbours are committed as they are, in the order
/// of the report and without failure.
pub proof fn splits_apart_are_committed_as_they_are(actions: Seq<CorporateAction>)
    requires
        forall|i: int| 0 <= i < actions.len() ==> (#[trigger] actions[i]).action is StockSplit,
        forall|i: int, j: int|
            0 <= i < actions.len() && j == i + 1 && j < actions.len() ==> are_apart(
                #[trigger] actions[i],
                #[trigger] actions[j],
            ),
    ensures
        section::committed(actions).done == actions,
        section::committed(actions).failure is None,
{
    if actions.len() > 0 {
        lemma_apart(actions);
        assert(actions.drop_last().push(actions.last()) =~= actions);
    }
}

proof fn lemma_apart(actions: Seq<CorporateAction>)
    requires
        actions.len() > 0,
        forall|i: int| 0 <= i < actions.len() ==> (#[trigger] actions[i]).action is StockSplit,
        forall|i: int, j: int|
            0 <= i < actions.len() && j == i + 1 && j < actions.len() ==> are_apart(
                #[trigger] actions[i],
                #[trigger] actions[j],
            ),
    ensures
        section::progress(actions).done == actions.drop_last(),
        section::progress(actions).pending == seq![actions.last()],
        section::progress(actions).failure is None,
    decreases actions.len(),
{
    let rest = actions.drop_last();
    if rest.len() > 0 {
        lemma_apart(rest);
        assert(rest[rest.len() - 1] == actions[actions.len() - 2]);
        assert(are_apart(actions[actions.len() - 2], actions[actions.len() - 1]));
        assert(rest.drop_last().push(rest.last()) =~= rest);
    } else {
        assert(section::progress(rest).pending.len() == 0);
        assert(rest =~= Seq::empty());
    }
}

/// Splits of pairwise different dates are committed as they are, in the order of the report and
/// without failure.
pub proof fn splits_of_different_dates_are_committed_as_they_are(actions: Seq<CorporateAction>)
    requires
        forall|i: int| 0 <= i < actions.len() ==> (#[trigger] actions[i]).action is StockSplit,
        forall|i: int, j: int|
            0 <= i < j < actions.len() ==> (#[trigger] actions[i]).time.date != (
            #[trigger] actions[j]).time.date,
    ensures
        section::committed(actions).done == actions,
        section::committed(actions).failure is None,
{
    assert forall|i: int, j: int|
        0 <= i < actions.len() && j == i + 1 && j < actions.len() implies are_apart(
        #[trigger] actions[i],
        #[trigger] actions[j],
    ) by {
        assert(actions[i].time.date != actions[j].time.date);
    }
    splits_apart_are_committed_as_they_are(actions);
}

/// A record on its own stands for its split. Two records stand for one split exactly if they have
/// the same ratio and one of them only withdraws shares and the other one only deposits shares: it
/// then does both, at the time, with the report date and the symbol of the first record. All else
/// fails, with the symbol and the date of the first record.
pub proof fn two_records_join_if_one_withdraws_and_one_deposits(
    actions: Seq<CorporateAction>,
)
    requires
        actions.len() > 0,
    ensures
        actions.len() == 1 ==> section::joined(actions) == Ok::<CorporateAction, error::ErrorModel>(
            actions[0],
        ),
        section::joined(actions) is Ok <==> actions.len() == 1 || actions.len() == 2 && {
            &&& actions[0].action matches CorporateActionType::StockSplit {
                ratio: a,
                withdrawal: w,
                deposit: d,
            }
            &&& actions[1].action matches CorporateActionType::StockSplit {
                ratio: b,
                withdrawal: x,
                deposit: e,
            }
            &&& a.from == b.from && a.to == b.to
            &&& w is Some && d is None && x is None && e is Some || w is None && d is Some
                && x is Some && e is None
        },
        actions.len() == 2 ==> (section::joined(actions) matches Ok(split) ==> {
            &&& split.time == actions[0].time
            &&& split.report_date == actions[0].report_date
            &&& split.symbol == actions[0].symbol
            &&& split.action is StockSplit
            &&& split.action->ratio == actions[0].action->ratio
            &&& split.action->withdrawal is Some && split.action->deposit is Some
            &&& split.action->withdrawal == actions[0].action->withdrawal
                || split.action->withdrawal == actions[1].action->withdrawal
            &&& split.action->deposit == actions[0].action->deposit || split.action->deposit
                == actions[1].action->deposit
        }),
        section::joined(actions) matches Err(failure) ==> failure
            == (error::ErrorModel::UnsupportedStockSplit {
            symbol: actions[0].symbol@,
            date: actions[0].time.date,
        }),
{
}

/// Whether the last split among the records is the one at the position.
pub open spec fn is_last_split(actions: Seq<CorporateAction>, k: int) -> bool {
    &&& 0 <= k < actions.len()
    &&& actions[k].action is StockSplit
    &&& forall|j: int| k < j < actions.len() ==> !((#[trigger] actions[j]).action is StockSplit)
}

proof fn lemma_last_split(actions: Seq<CorporateAction>, k: int)
    requires
        is_last_split(actions, k),
        section::progress(actions).failure is None,
    ensures
        section::progress(actions).pending.len() > 0,
        section::progress(actions).pending.last() == actions[k],
    decreases actions.len(),
{
    let rest = actions.drop_last();
    if k < rest.len() {
        assert(!(actions[actions.len() - 1].action is StockSplit));
        assert forall|j: int| k < j < rest.len() implies !((
        #[trigger] rest[j]).action is StockSplit) by {
            assert(rest[j] == actions[j]);
        }
        assert(section::progress(rest).failure is None);
        lemma_last_split(rest, k);
    }
}

proof fn lemma_no_split(actions: Seq<CorporateAction>)
    requires
        forall|i: int| 0 <= i < actions.len() ==> !((#[trigger] actions[i]).action is StockSplit),
    ensures
        section::progress(actions).pending.len() == 0,
        section::progress(actions).failure is None,
        section::progress(actions).done == actions,
    decreases actions.len(),
{
    if actions.len() > 0 {
        let rest = actions.drop_last();
        assert(!(actions[actions.len() - 1].action is StockSplit));
        assert forall|i: int| 0 <= i < rest.len() implies !((
        #[trigger] rest[i]).action is StockSplit) by {
            assert(rest[i] == actions[i]);
        }
        lemma_no_split(rest);
        assert(rest.push(actions.last()) =~= actions);
    } else {
        assert(actions =~= Seq::empty());
    }
}

/// One more record that is no split is committed as it is. It goes in front of the last split, which
/// may still go on, and behind all else.
pub proof fn other_action_goes_in_front_of_the_last_split(
    actions: Seq<CorporateAction>,
    action: CorporateAction,
    k: int,
)
    requires
        section::committed(actions).failure is None,
        !(action.action is StockSplit),
    ensures
        section::committed(actions.push(action)).failure is None,
        is_last_split(actions, k) ==> {
            let done = section::committed(actions).done;
            &&& done.len() > 0
            &&& section::committed(actions.push(action)).done == done.drop_last().push(action).push(
                done.last(),
            )
        },
        (forall|i: int| 0 <= i < actions.len() ==> !((#[trigger] actions[i]).action is StockSplit))
            ==> section::committed(actions.push(action)).done == section::committed(
            actions,
        ).done.push(action),
{
    assert(actions.push(action).drop_last() =~= actions);
    let before = section::progress(actions);
    if is_last_split(actions, k) {
        lemma_last_split(actions, k);
        let done = section::committed(actions).done;
        assert(done.drop_last() =~= before.done);
        assert(section::progress(actions.push(action)).done =~= before.done.push(action));
    }
    if forall|i: int| 0 <= i < actions.len() ==> !((#[trigger] actions[i]).action is StockSplit) {
        lemma_no_split(actions);
    }
}

/// One more record of a split that stands apart from the last one is committed behind all else.
pub proof fn new_split_goes_behind(actions: Seq<CorporateAction>, action: CorporateAction, k: int)
    requires
        section::committed(actions).failure is None,
        action.action is StockSplit,
        is_last_split(actions, k) ==> are_apart(actions[k], action),
        is_last_split(actions, k) || forall|i: int|
            0 <= i < actions.len() ==> !((#[trigger] actions[i]).action is StockSplit),
    ensures
        section::committed(actions.push(action)).failure is None,
        section::committed(actions.push(action)).done == section::committed(actions).done.push(
            action,
        ),
{
    assert(actions.push(action).drop_last() =~= actions);
    if is_last_split(actions, k) {
        lemma_last_split(actions, k);
    } else {
        lemma_no_split(actions);
    }
    assert(section::progress(actions.push(action)).pending =~= seq![action]);
}

/// A second record of the last split is joined with the first one where they can be joined, and
/// fails otherwise: what stands in front of that split is committed either way.
pub proof fn second_record_is_joined_with_the_first(
    actions: Seq<CorporateAction>,
    first: CorporateAction,
    second: CorporateAction,
    k: int,
)
    requires
        section::committed(actions).failure is None,
        first.action is StockSplit,
        second.action is StockSplit,
        !are_apart(first, second),
        is_last_split(actions, k) ==> are_apart(actions[k], first),
        is_last_split(actions, k) || forall|i: int|
            0 <= i < actions.len() ==> !((#[trigger] actions[i]).action is StockSplit),
    ensures
        ({
            let pair = section::joined(seq![first, second]);
            let after = section::committed(actions.push(first).push(second));
            let done = section::committed(actions).done;
            &&& pair matches Ok(split) ==> after.failure is None && after.done == done.push(split)
            &&& pair matches Err(failure) ==> after.failure == Some(failure) && after.done == done
        }),
{
    let one = actions.push(first);
    assert(one.drop_last() =~= actions);
    assert(one.push(second).drop_last() =~= one);
    if is_last_split(actions, k) {
        lemma_last_split(actions, k);
    } else {
        lemma_no_split(actions);
    }
    assert(section::progress(one).pending =~= seq![first]);
    assert(section::progress(one.push(second)).pending =~= seq![first, second]);
}

/// A third record of one split always fails.
pub proof fn third_record_fails(
    actions: Seq<CorporateAction>,
    first: CorporateAction,
    second: CorporateAction,
    third: CorporateAction,
    k: int,
)
    requires
        section::committed(actions).failure is None,
        first.action is StockSplit,
        second.action is StockSplit,
        third.action is StockSplit,
        !are_apart(first, second),
        !are_apart(second, third),
        is_last_split(actions, k) ==> are_apart(actions[k], first),
        is_last_split(actions, k) || forall|i: int|
            0 <= i < actions.len() ==> !((#[trigger] actions[i]).action is StockSplit),
    ensures
        ({
            let after = section::committed(actions.push(first).push(second).push(third));
            &&& after.failure == Some(
                error::ErrorModel::UnsupportedStockSplit {
                    symbol: first.symbol@,
                    date: first.time.date,
                },
            )
            &&& after.done == section::committed(actions).done
        }),
{
    let one = actions.push(first);
    let two = one.push(second);
    assert(one.drop_last() =~= actions);
    assert(two.drop_last() =~= one);
    assert(two.push(third).drop_last() =~= two);
    if is_last_split(actions, k) {
        lemma_last_split(actions, k);
    } else {
        lemma_no_split(actions);
    }
    assert(section::progress(one).pending =~= seq![first]);
    assert(section::progress(two).pending =~= seq![first, second]);
    assert(section::progress(two.push(third)).pending =~= seq![first, second, third]);
}

} // verus!

//! What holds of the corporate actions of every report.

use vstd::prelude::*;

use crate::broker_statement::corporate_actions as model;
use crate::broker_statement::corporate_actions::{CorporateAction, CorporateActionType};
use crate::broker_statement::ib::common::{self, Record};
use crate::broker_statement::ib::corporate_actions as section;

verus! {

/// What the numbers of an action may be: quantities are positive, money is not negative, the
/// volume of a liquidation is that of its shares, and a record of a stock split either withdraws
/// or deposits shares.
pub open spec fn is_plausible(action: model::CorporateActionTypeModel) -> bool {
    match action {
        model::CorporateActionTypeModel::Liquidation { quantity, price, volume, .. } => {
            &&& quantity.signed() > 0
            &&& price.signed() >= 0
            &&& volume.signed() >= 0
            &&& common::volume_agrees(quantity, price, volume)
        },
        model::CorporateActionTypeModel::Spinoff { quantity, .. } => quantity.signed() > 0,
        model::CorporateActionTypeModel::StockDividend { stock, quantity } => {
            &&& stock is Some
            &&& quantity.signed() > 0
        },
        model::CorporateActionTypeModel::StockSplit { withdrawal, deposit, .. } => {
            &&& (withdrawal is Some) != (deposit is Some)
            &&& withdrawal matches Some(quantity) ==> quantity.signed() > 0
            &&& deposit matches Some(quantity) ==> quantity.signed() > 0
        },
        model::CorporateActionTypeModel::SubscribableRightsIssue => true,
    }
}

/// Only records of stocks are read. The action has a known time and a report date, and its numbers
/// are plausible.
pub proof fn parsed_actions_are_plausible(record: Record)
    requires
        section::parsed(record) is Ok,
    ensures
        record.value("Asset Category"@) == Ok::<Seq<char>, crate::error::ErrorModel>("Stocks"@),
        section::parsed(record)->Ok_0.time.time is Some,
        section::parsed(record)->Ok_0.report_date is Some,
        is_plausible(section::parsed(record)->Ok_0.action),
{
}

/// The two records of a complex stock split join in either order, to the same.
pub proof fn joining_does_not_depend_on_the_order(
    first: CorporateActionType,
    second: CorporateActionType,
)
    ensures
        section::joined_split(first, second) == section::joined_split(second, first),
{
}

/// A joined stock split has the ratio of both records, the withdrawal of one and the deposit of
/// the other.
pub proof fn joined_split_has_both_sides(first: CorporateActionType, second: CorporateActionType)
    requires
        section::joined_split(first, second) is Some,
    ensures
        section::joined_split(first, second) matches Some(
            CorporateActionType::StockSplit { ratio, withdrawal, deposit },
        ) && {
            &&& withdrawal is Some && deposit is Some
            &&& ratio == first->ratio && ratio == second->ratio
            &&& first->withdrawal == withdrawal && second->deposit == deposit
                || second->withdrawal == withdrawal && first->deposit == deposit
        },
{
}

/// A record that takes shares away and a record that adds shares at the same ratio join, as the
/// records of one stock split.
pub proof fn opposite_records_of_a_split_join(
    taking: Record,
    adding: Record,
    first: CorporateAction,
    second: CorporateAction,
)
    requires
        section::parsed(taking) == Ok::<model::CorporateActionModel, crate::error::ErrorModel>(
            first@,
        ),
        section::parsed(adding) == Ok::<model::CorporateActionModel, crate::error::ErrorModel>(
            second@,
        ),
        first.action is StockSplit,
        second.action is StockSplit,
        first.action->ratio == second.action->ratio,
        first.action->withdrawal is Some,
        second.action->deposit is Some,
    ensures
        section::joined_split(first.action, second.action) == Some(
            CorporateActionType::StockSplit {
                ratio: first.action->ratio,
                withdrawal: first.action->withdrawal,
                deposit: second.action->deposit,
            },
        ),
{
    parsed_actions_are_plausible(taking);
    parsed_actions_are_plausible(adding);
}

/// The actions that are no stock splits.
pub open spec fn others(actions: Seq<CorporateAction>) -> Seq<CorporateAction>
    decreases actions.len(),
{
    if actions.len() == 0 {
        actions
    } else if section::is_stock_split(actions.last()) {
        others(actions.drop_last())
    } else {
        others(actions.drop_last()).push(actions.last())
    }
}

/// The actions that are stock splits.
pub open spec fn splits(actions: Seq<CorporateAction>) -> Seq<CorporateAction>
    decreases actions.len(),
{
    if actions.len() == 0 {
        actions
    } else if section::is_stock_split(actions.last()) {
        splits(actions.drop_last()).push(actions.last())
    } else {
        splits(actions.drop_last())
    }
}

/// The records of stock splits, grouped: a record belongs to the group of the record before it if
/// both are of one stock split.
pub open spec fn groups(records: Seq<CorporateAction>) -> Seq<Seq<CorporateAction>>
    decreases records.len(),
{
    if records.len() == 0 {
        Seq::empty()
    } else {
        let before = groups(records.drop_last());
        if before.len() > 0 && section::same_split(records.last(), before.last().last()) {
            before.drop_last().push(before.last().push(records.last()))
        } else {
            before.push(seq![records.last()])
        }
    }
}

/// Whether the records of each group join.
pub open spec fn all_join(groups: Seq<Seq<CorporateAction>>) -> bool {
    forall|i: int| 0 <= i < groups.len() ==> section::joined(#[trigger] groups[i]) is Ok
}

/// What the groups join to.
pub open spec fn join_all(groups: Seq<Seq<CorporateAction>>) -> Seq<CorporateAction> {
    Seq::new(groups.len(), |i: int| section::joined(groups[i])->Ok_0)
}

proof fn lemma_pending_is_split(actions: Seq<CorporateAction>)
    ensures
        forall|i: int|
            0 <= i < section::progress(actions).pending.len() ==> section::is_stock_split(
                #[trigger] section::progress(actions).pending[i],
            ),
    decreases actions.len(),
{
    if actions.len() > 0 {
        lemma_pending_is_split(actions.drop_last());
    }
}

proof fn lemma_push_other(actions: Seq<CorporateAction>, action: CorporateAction)
    ensures
        !section::is_stock_split(action) ==> others(actions.push(action)) == others(actions).push(
            action,
        ) && splits(actions.push(action)) == splits(actions),
        section::is_stock_split(action) ==> others(actions.push(action)) == others(actions)
            && splits(actions.push(action)) == splits(actions).push(action),
{
    assert(actions.push(action).drop_last() =~= actions);
}

/// What has been taken so far: the groups of the records are those that are finished, and the
/// pending one.
proof fn lemma_progress(actions: Seq<CorporateAction>)
    ensures
        ({
            let progress = section::progress(actions);
            let groups = groups(splits(actions));
            &&& progress.failure is None ==> {
                &&& others(progress.done) == others(actions)
                &&& groups.len() == 0 <==> progress.pending.len() == 0
                &&& groups.len() > 0 ==> {
                    &&& groups.last() == progress.pending
                    &&& all_join(groups.drop_last())
                    &&& splits(progress.done) == join_all(groups.drop_last())
                }
                &&& groups.len() == 0 ==> splits(progress.done).len() == 0
            }
            &&& progress.failure is Some ==> exists|i: int|
                0 <= i < groups.len() - 1 && section::joined(#[trigger] groups[i]) is Err
        }),
    decreases actions.len(),
{
    if actions.len() > 0 {
        let rest = actions.drop_last();
        let action = actions.last();
        let before = section::progress(rest);
        let progress = section::progress(actions);
        let earlier = groups(splits(rest));
        lemma_progress(rest);
        lemma_pending_is_split(rest);
        lemma_push_other(rest, action);
        assert(actions =~= rest.push(action));
        if before.failure is Some {
            let i = choose|i: int|
                0 <= i < earlier.len() - 1 && section::joined(#[trigger] earlier[i]) is Err;
            if section::is_stock_split(action) {
                assert(splits(actions).drop_last() =~= splits(rest));
                assert(groups(splits(actions))[i] == earlier[i]);
            }
        } else if !section::is_stock_split(action) {
            lemma_push_other(before.done, action);
        } else {
            let later = groups(splits(actions));
            assert(splits(actions).drop_last() =~= splits(rest));
            if before.pending.len() > 0 && section::same_split(action, before.pending.last()) {
                assert(later.drop_last() =~= earlier.drop_last());
            } else {
                assert(later.drop_last() =~= earlier);
                if before.pending.len() > 0 {
                    match section::joined(before.pending) {
                        Ok(split) => {
                            assert(section::is_stock_split(before.pending[0]));
                            assert(section::is_stock_split(split));
                            lemma_push_other(before.done, split);
                            assert(earlier =~= earlier.drop_last().push(before.pending));
                            assert(join_all(earlier) =~= join_all(earlier.drop_last()).push(split));
                            assert forall|i: int| 0 <= i < earlier.len() implies section::joined(
                                #[trigger] earlier[i],
                            ) is Ok by {
                                if i < earlier.len() - 1 {
                                    assert(earlier.drop_last()[i] == earlier[i]);
                                }
                            }
                        },
                        Err(_) => {
                            assert(later[earlier.len() - 1] == before.pending);
                        },
                    }
                } else {
                    assert(splits(before.done) =~= join_all(earlier));
                }
            }
        }
    }
}

/// The actions of a report are committed if the records of each stock split join. The actions that
/// are no stock splits pass unchanged, and in place of the records of each stock split stands what
/// they join to, both in their order.
pub proof fn commit_joins_the_records_of_each_split(actions: Seq<CorporateAction>)
    ensures
        section::committed(actions).failure is None <==> all_join(groups(splits(actions))),
        section::committed(actions).failure is None ==> {
            &&& others(section::committed(actions).done) == others(actions)
            &&& splits(section::committed(actions).done) == join_all(groups(splits(actions)))
        },
{
    let progress = section::progress(actions);
    let all = groups(splits(actions));
    lemma_progress(actions);
    lemma_pending_is_split(actions);
    if progress.failure is None {
        if progress.pending.len() > 0 {
            assert(all[all.len() - 1] == progress.pending);
            if let Ok(split) = section::joined(progress.pending) {
                assert(section::is_stock_split(progress.pending[0]));
                assert(section::is_stock_split(split));
                lemma_push_other(progress.done, split);
                assert(join_all(all) =~= join_all(all.drop_last()).push(split));
                assert forall|i: int| 0 <= i < all.len() implies section::joined(
                    #[trigger] all[i],
                ) is Ok by {
                    if i < all.len() - 1 {
                        assert(all.drop_last()[i] == all[i]);
                    }
                }
            }
        } else {
            assert(splits(progress.done) =~= join_all(all));
        }
    }
}

/// The position of the first group whose records do not join, or the number of groups.
pub open spec fn first_failure(groups: Seq<Seq<CorporateAction>>) -> nat
    decreases groups.len(),
{
    if groups.len() == 0 {
        0
    } else if first_failure(groups.drop_last()) < groups.len() - 1 {
        first_failure(groups.drop_last())
    } else if section::joined(groups.last()) is Err {
        (groups.len() - 1) as nat
    } else {
        groups.len()
    }
}

/// The position of the record that begins the group behind the given one, or the number of actions
/// where no group is behind it.
pub open spec fn end_of_group(actions: Seq<CorporateAction>, group: nat) -> nat
    decreases actions.len(),
{
    if groups(splits(actions)).len() <= group + 1 || actions.len() == 0 {
        actions.len()
    } else if groups(splits(actions.drop_last())).len() <= group + 1 {
        (actions.len() - 1) as nat
    } else {
        end_of_group(actions.drop_last(), group)
    }
}

proof fn lemma_first_failure(groups: Seq<Seq<CorporateAction>>, group: int)
    requires
        0 <= group < groups.len(),
        section::joined(groups[group]) is Err,
        all_join(groups.take(group)),
    ensures
        first_failure(groups) == group,
    decreases groups.len(),
{
    if group < groups.len() - 1 {
        assert(groups.drop_last().take(group) =~= groups.take(group));
        lemma_first_failure(groups.drop_last(), group);
    } else {
        assert(groups.drop_last() =~= groups.take(group));
        lemma_no_failure(groups.drop_last());
    }
}

proof fn lemma_no_failure(groups: Seq<Seq<CorporateAction>>)
    requires
        all_join(groups),
    ensures
        first_failure(groups) == groups.len(),
    decreases groups.len(),
{
    if groups.len() > 0 {
        assert forall|i: int| 0 <= i < groups.len() - 1 implies section::joined(
            #[trigger] groups.drop_last()[i],
        ) is Ok by {
            assert(groups.drop_last()[i] == groups[i]);
        }
        lemma_no_failure(groups.drop_last());
        assert(section::joined(groups[groups.len() - 1]) is Ok);
    }
}

/// Adding a record to the actions changes the last group only.
proof fn lemma_groups_grow(actions: Seq<CorporateAction>)
    requires
        actions.len() > 0,
    ensures
        ({
            let before = groups(splits(actions.drop_last()));
            let after = groups(splits(actions));
            &&& before.len() <= after.len() <= before.len() + 1
            &&& forall|i: int| 0 <= i < before.len() - 1 ==> #[trigger] after[i] == before[i]
            &&& after.len() > before.len() ==> after.drop_last() == before
        }),
{
    let before = groups(splits(actions.drop_last()));
    if section::is_stock_split(actions.last()) {
        assert(splits(actions).drop_last() =~= splits(actions.drop_last()));
        if groups(splits(actions)).len() > before.len() {
            assert(groups(splits(actions)).drop_last() =~= before);
        }
    }
}

/// What had been finished when a group did not join.
spec fn stopped_at(actions: Seq<CorporateAction>, progress: section::Progress) -> bool {
    let groups = groups(splits(actions));
    let group = first_failure(groups);
    let end = end_of_group(actions, group) as int;
    &&& group < groups.len()
    &&& end <= actions.len()
    &&& section::joined(groups[group as int]) == Err::<CorporateAction, crate::error::ErrorModel>(
        progress.failure->0,
    )
    &&& others(progress.done) == others(actions.take(end))
    &&& splits(progress.done) == join_all(groups.take(group as int))
}

proof fn lemma_progress_stopped(actions: Seq<CorporateAction>)
    requires
        section::progress(actions).failure is Some,
    ensures
        stopped_at(actions, section::progress(actions)),
        first_failure(groups(splits(actions))) < groups(splits(actions)).len() - 1,
    decreases actions.len(),
{
    let rest = actions.drop_last();
    let before = section::progress(rest);
    let earlier = groups(splits(rest));
    let later = groups(splits(actions));
    lemma_groups_grow(actions);
    if before.failure is Some {
        lemma_progress_stopped(rest);
        let group = first_failure(earlier) as int;
        assert forall|i: int| 0 <= i < group implies section::joined(
            #[trigger] later.take(group)[i],
        ) is Ok by {
            lemma_before_first_failure(earlier, i);
            assert(later[i] == earlier[i]);
        }
        assert(later[group] == earlier[group]);
        lemma_first_failure(later, group);
        assert(later.take(group) =~= earlier.take(group));
        let end = end_of_group(rest, group as nat) as int;
        assert(end_of_group(actions, group as nat) == end);
        assert(actions.take(end) =~= rest.take(end));
    } else {
        lemma_progress(rest);
        assert(section::is_stock_split(actions.last()));
        assert(splits(actions).drop_last() =~= splits(rest));
        let group = earlier.len() - 1;
        assert(later.drop_last() =~= earlier);
        assert(later[group] == before.pending);
        assert(later.take(group) =~= earlier.drop_last());
        lemma_first_failure(later, group);
        assert(end_of_group(actions, group as nat) == actions.len() - 1);
        assert(actions.take(actions.len() - 1) =~= rest);
    }
}

proof fn lemma_before_first_failure(groups: Seq<Seq<CorporateAction>>, i: int)
    requires
        0 <= i < first_failure(groups),
    ensures
        i < groups.len(),
        section::joined(groups[i]) is Ok,
    decreases groups.len(),
{
    if groups.len() > 0 {
        if i < first_failure(groups.drop_last()) {
            lemma_before_first_failure(groups.drop_last(), i);
        }
        lemma_first_failure_bound(groups.drop_last());
    }
}

proof fn lemma_first_failure_bound(groups: Seq<Seq<CorporateAction>>)
    ensures
        first_failure(groups) <= groups.len(),
    decreases groups.len(),
{
    if groups.len() > 0 {
        lemma_first_failure_bound(groups.drop_last());
    }
}

/// Where the records of a stock split do not join, the error is that of the first such split. What
/// came up to the record that ended its group is committed: the actions that are no stock splits,
/// and what the groups before it join to.
pub proof fn commit_stops_at_the_first_split_that_does_not_join(actions: Seq<CorporateAction>)
    requires
        section::committed(actions).failure is Some,
    ensures
        ({
            let committed = section::committed(actions);
            let groups = groups(splits(actions));
            let group = first_failure(groups);
            let end = end_of_group(actions, group) as int;
            &&& group < groups.len()
            &&& forall|i: int|
                0 <= i < group ==> section::joined(#[trigger] groups[i]) is Ok
            &&& section::joined(groups[group as int]) == Err::<
                CorporateAction,
                crate::error::ErrorModel,
            >(committed.failure->0)
            &&& end <= actions.len()
            &&& end < actions.len() ==> section::is_stock_split(actions[end])
            &&& others(committed.done) == others(actions.take(end))
            &&& splits(committed.done) == join_all(groups.take(group as int))
        }),
{
    let progress = section::progress(actions);
    let all = groups(splits(actions));
    if progress.failure is Some {
        lemma_progress_stopped(actions);
    } else {
        lemma_progress(actions);
        let group = all.len() - 1;
        assert(all[group] == progress.pending);
        assert(all.take(group) =~= all.drop_last());
        lemma_first_failure(all, group);
        assert(actions.take(actions.len() as int) =~= actions);
    }
    let group = first_failure(all);
    assert forall|i: int| 0 <= i < group implies section::joined(#[trigger] all[i]) is Ok by {
        lemma_before_first_failure(all, i);
    }
    lemma_end_of_group(actions, group);
}

proof fn lemma_end_of_group(actions: Seq<CorporateAction>, group: nat)
    ensures
        end_of_group(actions, group) <= actions.len(),
        groups(splits(actions)).len() > group + 1 ==> end_of_group(actions, group) < actions.len(),
        end_of_group(actions, group) < actions.len() ==> section::is_stock_split(
            actions[end_of_group(actions, group) as int],
        ),
    decreases actions.len(),
{
    if actions.len() > 0 {
        lemma_end_of_group(actions.drop_last(), group);
    }
}

/// A report without stock splits is committed as it is.
pub proof fn report_without_splits_is_kept(actions: Seq<CorporateAction>)
    requires
        forall|i: int|
            0 <= i < actions.len() ==> !section::is_stock_split(#[trigger] actions[i]),
    ensures
        section::committed(actions).failure is None,
        section::committed(actions).done == actions,
    decreases actions.len(),
{
    if actions.len() > 0 {
        assert forall|i: int| 0 <= i < actions.len() - 1 implies !section::is_stock_split(
            #[trigger] actions.drop_last()[i],
        ) by {
            assert(actions.drop_last()[i] == actions[i]);
        }
        report_without_splits_is_kept(actions.drop_last());
        lemma_no_pending(actions.drop_last());
        assert(!section::is_stock_split(actions[actions.len() - 1]));
        assert(actions.drop_last().push(actions.last()) =~= actions);
    }
}

proof fn lemma_no_pending(actions: Seq<CorporateAction>)
    requires
        forall|i: int|
            0 <= i < actions.len() ==> !section::is_stock_split(#[trigger] actions[i]),
    ensures
        section::progress(actions).pending.len() == 0,
    decreases actions.len(),
{
    if actions.len() > 0 {
        assert forall|i: int| 0 <= i < actions.len() - 1 implies !section::is_stock_split(
            #[trigger] actions.drop_last()[i],
        ) by {
            assert(actions.drop_last()[i] == actions[i]);
        }
        lemma_no_pending(actions.drop_last());
        assert(!section::is_stock_split(actions[actions.len() - 1]));
    }
}

} // verus!

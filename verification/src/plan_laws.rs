//! What becomes of the cells of a context plan.

use vstd::prelude::*;

verus! {

use crate::context_plan::{
    cell_item_of, measured, opened, planner_inv, shortened, ActionModel, CellModel, CellOrigin,
    PlannedModel, PlannerModel, StageModel,
};
use crate::fragments::ContentItemKind;
use crate::history::{
    anchored, item_text, ContentModel, HistoryBodyModel, HistoryItem, HistoryModel,
};
use crate::history_laws::an_anchor_is_its_number;
use crate::materialize::{materialized, ContextItem};
use crate::text::decimal_text;

/// A source cell is the host's item for its identity, and refused without one; a
/// projected cell is the first item that its context item shows.
pub proof fn a_cell_is_its_item(
    identity: String,
    item: HistoryItem,
    shown: ContextItem,
    node_prompt: Seq<char>,
)
    ensures
        cell_item_of(CellOrigin::Source { identity, found: Some(item) }, node_prompt) == Ok::<
            HistoryModel,
            Seq<char>,
        >(item@),
        cell_item_of(CellOrigin::Source { identity, found: None }, node_prompt) == Err::<
            HistoryModel,
            Seq<char>,
        >("missing Codex source item for stable identity "@ + identity@),
        match materialized(seq![shown], Seq::empty(), None, node_prompt) {
            Ok(items) => match cell_item_of(CellOrigin::Projection(shown), node_prompt) {
                Ok(found) => items.len() > 0 && found == items[0],
                Err(_) => items.len() == 0,
            },
            Err(error) => cell_item_of(CellOrigin::Projection(shown), node_prompt) == Err::<
                HistoryModel,
                Seq<char>,
            >(error),
        },
{
}

/// Whether a plan ended a cell with some more items and nothing else changed.
pub open spec fn ends_with(
    before: PlannerModel,
    after: (PlannerModel, ActionModel),
    added: Seq<PlannedModel>,
) -> bool {
    &&& after.1 is Done
    &&& after.0.cell is None
    &&& after.0.items == before.items + added
    &&& after.0.user_messages == before.user_messages
}

/// An item of the task tree is measured; where it is within nine thousand bytes
/// it is sent as it is, with its size. Where it is over, a tool output is
/// shortened, and anything else cannot be sent.
pub proof fn items_of_the_tree_are_bounded(
    m: PlannerModel,
    item: HistoryModel,
    size: usize,
    error: Seq<char>,
)
    requires
        m.cell is None,
    ensures
        ({
            let asked = opened(m, item, Seq::empty(), true);
            let told = measured(asked.0, Ok(size));
            &&& asked.1 == ActionModel::Measure(item)
            &&& asked.0.items == m.items && asked.0.user_messages == m.user_messages
            &&& size <= 9000 ==> ends_with(
                m,
                told,
                seq![PlannedModel { item, wire_bytes: Some(size) }],
            )
            &&& size > 9000 && (item.body is FunctionCallOutput
                || item.body is CustomToolCallOutput) ==> (told.1 matches ActionModel::Shorten {
                item: whole,
                budget,
            } && whole == item && budget <= 9000) && told.0.items == m.items
            &&& size > 9000 && !(item.body is FunctionCallOutput
                || item.body is CustomToolCallOutput) ==> told.1 is Fail && told.0.items == m.items
            &&& measured(asked.0, Err(error)).1 == ActionModel::Fail(error)
        }),
{
    let asked = opened(m, item, Seq::empty(), true);
    let told = measured(asked.0, Ok(size));
    if size <= 9000 {
        let none = crate::context_plan::unbounded(Seq::<HistoryModel>::empty());
        assert(none =~= Seq::empty());
        assert(told.0.items =~= m.items + seq![PlannedModel { item, wire_bytes: Some(size) }]);
    }
}

/// A source item with one anchor carries it where that fits; the user's message
/// is noted under the anchor, with what it said before.
pub proof fn an_anchor_that_fits_is_carried(
    m: PlannerModel,
    item: HistoryModel,
    anchor: u64,
    size: usize,
)
    requires
        m.cell is None,
        size <= 9000,
    ensures
        ({
            let asked = opened(m, item, seq![anchor], false);
            let told = measured(asked.0, Ok(size));
            &&& asked.1 == ActionModel::Measure(anchored(item, anchor))
            &&& told.1 is Done
            &&& told.0.cell is None
            &&& told.0.items == m.items.push(
                PlannedModel { item: anchored(item, anchor), wire_bytes: None },
            )
            &&& told.0.user_messages == m.user_messages.push((anchor, item_text(item)))
        }),
{
    let asked = opened(m, item, seq![anchor], false);
    let told = measured(asked.0, Ok(size));
    let none = crate::context_plan::unbounded(Seq::<HistoryModel>::empty());
    assert(none =~= Seq::empty());
    assert(told.0.items =~= m.items.push(
        PlannedModel { item: anchored(item, anchor), wire_bytes: None },
    ));
}

/// Anchors are taken in order: after one is settled, be it on the item or as an
/// item of its own before it, the next is asked for, and its message noted.
pub proof fn anchors_are_settled_in_order(m: PlannerModel, c: CellModel, size: usize)
    requires
        m.cell == Some(c),
        planner_inv(m),
        c.stage is Anchored || c.stage is Anchor,
        c.next + 1 < c.labels.len(),
        size <= 9000,
    ensures
        ({
            let told = measured(m, Ok(size));
            let item = match c.stage {
                StageModel::Anchored { candidate } => candidate,
                _ => c.item,
            };
            let label = c.labels[c.next + 1];
            &&& told.1 == ActionModel::Measure(anchored(item, label))
            &&& told.0.user_messages == m.user_messages.push((label, item_text(item)))
            &&& told.0.items == m.items
            &&& told.0.cell matches Some(next) && next.item == item && next.next == c.next + 1
                && next.labels == c.labels && next.spine_owned == c.spine_owned && match c.stage {
                StageModel::Anchored { .. } => next.anchor_items == c.anchor_items,
                _ => next.anchor_items.len() == c.anchor_items.len() + 1
                    && next.anchor_items.drop_last() == c.anchor_items && is_lone_anchor(
                    next.anchor_items.last(),
                    c.labels[c.next],
                ),
            }
        }),
{
    an_anchor_is_its_number(c.labels[c.next]);
    if c.stage is Anchor {
        let told = measured(m, Ok(size));
        assert(told.0.cell->Some_0.anchor_items.drop_last() =~= c.anchor_items);
    }
}

/// Whether an item is an anchor that stands alone: a message of the user with the
/// anchor's text.
pub open spec fn is_lone_anchor(item: HistoryModel, anchor: u64) -> bool {
    item.id is None && item.payload is None && (item.body matches HistoryBodyModel::Message {
        role,
        content,
    } && role == "user"@ && content == seq![
        ContentModel::InputText {
            text: seq!['[', 'U'] + decimal_text(anchor as nat) + seq![']', '\n'],
            kind: Some(ContentItemKind::UserAnchor),
        },
    ])
}

/// Where an item has no room for its anchor, or cannot be measured with it, the
/// anchor alone is measured; where even that is too large, nothing can be sent.
pub proof fn an_anchor_without_room_is_measured_alone(
    m: PlannerModel,
    c: CellModel,
    size: Result<usize, Seq<char>>,
    alone: usize,
)
    requires
        m.cell == Some(c),
        c.stage is Anchored,
        0 <= c.next < c.labels.len(),
        size matches Ok(n) ==> n > 9000,
    ensures
        ({
            let told = measured(m, size);
            &&& told.1 matches ActionModel::Measure(item) && is_lone_anchor(item, c.labels[c.next])
            &&& told.0.user_messages == m.user_messages
            &&& told.0.items == m.items
            &&& alone > 9000 ==> measured(told.0, Ok(alone)).1 is Fail
        }),
{
    an_anchor_is_its_number(c.labels[c.next]);
}

/// In the search for a fit, a shortened output that fits is kept and only larger
/// budgets are tried after it, until there is none and it is sent; one that does
/// not fit leaves smaller budgets, until there is none and the best that fitted
/// is sent, or nothing can be.
pub proof fn the_largest_fit_is_sent(
    m: PlannerModel,
    c: CellModel,
    low: usize,
    high: usize,
    budget: usize,
    best: Option<(HistoryModel, usize)>,
    whole: usize,
    candidate: HistoryModel,
    size: usize,
)
    requires
        m.cell == Some(c),
        planner_inv(m),
        c.stage == (StageModel::Search { low, high, budget, best, whole }),
        c.anchor_items.len() == 0,
    ensures
        ({
            let told = shortened(m, candidate, Ok(size));
            &&& size <= 9000 ==> {
                ||| told.0.cell is None && budget == high && ends_with(
                    m,
                    told,
                    seq![PlannedModel { item: candidate, wire_bytes: Some(size) }],
                )
                ||| (told.1 matches ActionModel::Shorten { item, budget: next } && item == c.item
                    && budget < next <= high) && searches_on(told.0, Some((candidate, size)))
            }
            &&& size > 9000 ==> {
                ||| (told.1 matches ActionModel::Shorten { item, budget: next } && item == c.item
                    && low <= next < budget) && searches_on(told.0, best)
                ||| budget == low && (best matches Some(found) && ends_with(
                    m,
                    told,
                    seq![PlannedModel { item: found.0, wire_bytes: Some(found.1) }],
                ))
                ||| budget == low && best is None && told.1 is Fail && told.0.items == m.items
            }
        }),
{
    let told = shortened(m, candidate, Ok(size));
    let none = crate::context_plan::unbounded(c.anchor_items);
    assert(none =~= Seq::empty());
    if size <= 9000 {
        if told.0.cell is None {
            assert(told.0.items =~= m.items + seq![
                PlannedModel { item: candidate, wire_bytes: Some(size) },
            ]);
        }
    } else if let Some(found) = best {
        if told.0.cell is None {
            assert(told.0.items =~= m.items + seq![
                PlannedModel { item: found.0, wire_bytes: Some(found.1) },
            ]);
        }
    }
}

/// Whether a search goes on with the given best fit.
pub open spec fn searches_on(m: PlannerModel, best: Option<(HistoryModel, usize)>) -> bool {
    m.cell matches Some(c) && (c.stage matches StageModel::Search { best: kept, .. } && kept
        == best)
}

} // verus!

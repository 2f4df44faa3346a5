//! Context plans turned into the items that are sent. The host measures items
//! and shortens tool outputs; what follows from that is decided here.

use crate::fragments::{validate_spine_model_item, SpineUserAnchor, MAX_SPINE_MODEL_ITEM_WIRE_BYTES};
use crate::history::{message_from_response_item, text_message_item, HistoryBody, HistoryItem};
use crate::materialize::{materialize_context, ContextItem};
use crate::fragments::NodeContextCost;
use crate::rollout_source::{RolloutEntry, SpinetreeUserMessageProjectionEntry};
use crate::text::decimal;
use vstd::prelude::*;

verus! {

use crate::fragments::{anchor_text, oversized_item_text, ContentItemKind};
use crate::history::{anchored, item_models, item_text, text_item, HistoryModel};
use crate::materialize::materialized;
use crate::rollout_source::{entries, projection_views, Numbered};
use crate::text::decimal_text;

/// Where the item of a plan cell comes from.
pub enum CellOrigin {
    /// A source item; `found` is the host's item for the identity.
    Source { identity: String, found: Option<HistoryItem> },
    /// A context item that is projected.
    Projection(ContextItem),
}

/// The item of a plan cell, or what is wrong with it.
pub open spec fn cell_item_of(origin: CellOrigin, node_prompt: Seq<char>) -> Result<
    HistoryModel,
    Seq<char>,
> {
    match origin {
        CellOrigin::Source { identity, found } => match found {
            Some(item) => Ok(item@),
            None => Err("missing Codex source item for stable identity "@ + identity@),
        },
        CellOrigin::Projection(item) => match materialized(
            seq![item],
            Seq::empty(),
            None,
            node_prompt,
        ) {
            Err(error) => Err(error),
            Ok(items) => if items.len() == 0 {
                Err("projected Spine context item rendered no Codex item"@)
            } else {
                Ok(items[0])
            },
        },
    }
}

/// The item of a plan cell.
pub fn cell_item(
    origin: CellOrigin,
    node_context_costs: &Vec<(String, NodeContextCost)>,
    node_prompt: &str,
) -> (r: Result<HistoryItem, String>)
    ensures
        match r {
            Ok(item) => cell_item_of(origin, node_prompt@) == Ok::<HistoryModel, Seq<char>>(item@),
            Err(error) => cell_item_of(origin, node_prompt@) == Err::<HistoryModel, Seq<char>>(
                error@,
            ),
        },
{
    match origin {
        CellOrigin::Source { identity, found } => match found {
            Some(item) => Ok(item),
            None => {
                let mut message = String::from_str(
                    "missing Codex source item for stable identity ",
                );
                message.append(identity.as_str());
                Err(message)
            },
        },
        CellOrigin::Projection(item) => {
            let mut context: Vec<ContextItem> = Vec::new();
            context.push(item);
            assert(context@ =~= seq![item]);
            let source: Vec<(usize, &RolloutEntry)> = Vec::new();
            assert(entries(source@) =~= Seq::<Numbered>::empty());
            match materialize_context(&context, &source, None, node_context_costs, node_prompt) {
                Err(error) => Err(error),
                Ok(items) => {
                    if items.len() == 0 {
                        return Err(
                            "projected Spine context item rendered no Codex item".to_owned(),
                        );
                    }
                    assert(item_models(items@)[0] == items@[0]@);
                    Ok(items[0].copy())
                },
            }
        },
    }
}

/// An item that will be sent, with its wire size where that was bounded.
#[derive(Debug, PartialEq, Eq)]
pub struct PlannedItem {
    pub item: HistoryItem,
    pub wire_bytes: Option<usize>,
}

/// The model of a [`PlannedItem`].
pub ghost struct PlannedModel {
    pub item: HistoryModel,
    pub wire_bytes: Option<usize>,
}

impl View for PlannedItem {
    type V = PlannedModel;

    open spec fn view(&self) -> PlannedModel {
        PlannedModel { item: self.item@, wire_bytes: self.wire_bytes }
    }
}

/// A shortened item and its wire size.
#[derive(Debug, PartialEq, Eq)]
struct Candidate {
    item: HistoryItem,
    wire_bytes: usize,
}

/// What an open cell waits for.
#[derive(Debug, PartialEq, Eq)]
#[allow(inconsistent_fields)]
enum Stage {
    Anchored { candidate: HistoryItem },
    Anchor,
    Whole,
    Search { low: usize, high: usize, budget: usize, best: Option<Candidate>, whole: usize },
}

/// The model of what an open cell waits for.
#[allow(inconsistent_fields)]
pub ghost enum StageModel {
    /// The size of the item with its next anchor before it.
    Anchored { candidate: HistoryModel },
    /// The size of the anchor as an item of its own.
    Anchor,
    /// The size of the finished item.
    Whole,
    /// The item shortened to `budget`, while a fit is looked for between `low`
    /// and `high`.
    Search {
        low: usize,
        high: usize,
        budget: usize,
        best: Option<(HistoryModel, usize)>,
        whole: usize,
    },
}

#[derive(Debug, PartialEq, Eq)]
struct OpenCell {
    item: HistoryItem,
    anchor_items: Vec<HistoryItem>,
    labels: Vec<u64>,
    next: usize,
    spine_owned: bool,
    stage: Stage,
}

/// The model of an open cell. `next` labels have been settled.
#[verifier::ext_equal]
pub ghost struct CellModel {
    pub item: HistoryModel,
    pub anchor_items: Seq<HistoryModel>,
    pub labels: Seq<u64>,
    pub next: int,
    pub spine_owned: bool,
    pub stage: StageModel,
}

/// A plan that is being turned into items, cell by cell.
#[derive(Debug, PartialEq, Eq)]
pub struct ContextPlanner {
    items: Vec<PlannedItem>,
    user_messages: Vec<SpinetreeUserMessageProjectionEntry>,
    cell: Option<OpenCell>,
}

/// The model of a [`ContextPlanner`].
#[verifier::ext_equal]
pub ghost struct PlannerModel {
    pub items: Seq<PlannedModel>,
    pub user_messages: Seq<(u64, Seq<char>)>,
    pub cell: Option<CellModel>,
}

pub open spec fn planned_models(items: Seq<PlannedItem>) -> Seq<PlannedModel> {
    items.map_values(|i: PlannedItem| i@)
}

impl Stage {
    spec fn model(self) -> StageModel {
        match self {
            Stage::Anchored { candidate } => StageModel::Anchored { candidate: candidate@ },
            Stage::Anchor => StageModel::Anchor,
            Stage::Whole => StageModel::Whole,
            Stage::Search { low, high, budget, best, whole } => StageModel::Search {
                low,
                high,
                budget,
                best: candidate_model(best),
                whole,
            },
        }
    }
}

spec fn candidate_model(best: Option<Candidate>) -> Option<(HistoryModel, usize)> {
    match best {
        Some(candidate) => Some((candidate.item@, candidate.wire_bytes)),
        None => None,
    }
}

impl OpenCell {
    spec fn model(self) -> CellModel {
        CellModel {
            item: self.item@,
            anchor_items: item_models(self.anchor_items@),
            labels: self.labels@,
            next: self.next as int,
            spine_owned: self.spine_owned,
            stage: self.stage.model(),
        }
    }
}

impl View for ContextPlanner {
    type V = PlannerModel;

    closed spec fn view(&self) -> PlannerModel {
        PlannerModel {
            items: planned_models(self.items@),
            user_messages: projection_views(self.user_messages@),
            cell: match self.cell {
                Some(cell) => Some(cell.model()),
                None => None,
            },
        }
    }
}

/// What the host does next.
#[derive(Debug, PartialEq, Eq)]
#[allow(inconsistent_fields)]
pub enum PlanAction {
    /// Measure the item on the wire.
    Measure(HistoryItem),
    /// Shorten the tool output to the budget, and measure it.
    Shorten { item: HistoryItem, budget: usize },
    /// The cell is settled.
    Done,
    /// The plan cannot be sent.
    Fail(String),
}

/// The model of a [`PlanAction`].
#[allow(inconsistent_fields)]
pub ghost enum ActionModel {
    Measure(HistoryModel),
    Shorten { item: HistoryModel, budget: usize },
    Done,
    Fail(Seq<char>),
}

impl View for PlanAction {
    type V = ActionModel;

    open spec fn view(&self) -> ActionModel {
        match *self {
            PlanAction::Measure(item) => ActionModel::Measure(item@),
            PlanAction::Shorten { item, budget } => ActionModel::Shorten { item: item@, budget },
            PlanAction::Done => ActionModel::Done,
            PlanAction::Fail(error) => ActionModel::Fail(error@),
        }
    }
}

/// The message that refuses an oversized item of the task tree.
pub open spec fn oversized_owned_text(bytes: nat) -> Seq<char> {
    "Spine-owned model item is "@ + decimal_text(bytes) + " serialized bytes; maximum is "@
        + decimal_text(MAX_SPINE_MODEL_ITEM_WIRE_BYTES as nat)
}

/// Whether an item is the output of a tool.
pub open spec fn is_tool_output(item: HistoryModel) -> bool {
    item.body is FunctionCallOutput || item.body is CustomToolCallOutput
}

/// Items that were put in without a bound.
pub open spec fn unbounded(items: Seq<HistoryModel>) -> Seq<PlannedModel> {
    items.map_values(|i: HistoryModel| PlannedModel { item: i, wire_bytes: None })
}

/// The plan with the open cell settled on an item.
pub open spec fn settled(
    m: PlannerModel,
    c: CellModel,
    item: HistoryModel,
    wire_bytes: Option<usize>,
) -> (PlannerModel, ActionModel) {
    (
        PlannerModel {
            items: (m.items + unbounded(c.anchor_items)).push(PlannedModel { item, wire_bytes }),
            user_messages: m.user_messages,
            cell: None,
        },
        ActionModel::Done,
    )
}

/// The plan given up.
pub open spec fn refused(m: PlannerModel, error: Seq<char>) -> (PlannerModel, ActionModel) {
    (PlannerModel { cell: None, ..m }, ActionModel::Fail(error))
}

/// The plan with the next thing asked of the open cell: an anchor if one is
/// left, else the size of an item of the task tree.
pub open spec fn continued(m: PlannerModel, c: CellModel) -> (PlannerModel, ActionModel) {
    if c.next < c.labels.len() {
        let candidate = anchored(c.item, c.labels[c.next]);
        (
            PlannerModel {
                items: m.items,
                user_messages: m.user_messages.push((c.labels[c.next], item_text(c.item))),
                cell: Some(CellModel { stage: StageModel::Anchored { candidate }, ..c }),
            },
            ActionModel::Measure(candidate),
        )
    } else if c.spine_owned {
        (
            PlannerModel { cell: Some(CellModel { stage: StageModel::Whole, ..c }), ..m },
            ActionModel::Measure(c.item),
        )
    } else {
        settled(m, c, c.item, None)
    }
}

/// Opening a cell.
pub open spec fn opened(
    m: PlannerModel,
    item: HistoryModel,
    labels: Seq<u64>,
    spine_owned: bool,
) -> (PlannerModel, ActionModel) {
    continued(
        m,
        CellModel {
            item,
            anchor_items: Seq::empty(),
            labels,
            next: 0,
            spine_owned,
            stage: StageModel::Whole,
        },
    )
}

/// The end of the search for a fit.
pub open spec fn concluded(
    m: PlannerModel,
    c: CellModel,
    best: Option<(HistoryModel, usize)>,
    whole: usize,
) -> (PlannerModel, ActionModel) {
    match best {
        Some(found) => settled(m, c, found.0, Some(found.1)),
        None => refused(m, oversized_owned_text(whole as nat)),
    }
}

/// The search for a fit between two budgets, bounds included.
pub open spec fn searched(
    m: PlannerModel,
    c: CellModel,
    low: usize,
    high: usize,
    best: Option<(HistoryModel, usize)>,
    whole: usize,
) -> (PlannerModel, ActionModel) {
    if low <= high {
        let budget = (low + (high - low) / 2) as usize;
        (
            PlannerModel {
                cell: Some(
                    CellModel {
                        stage: StageModel::Search { low, high, budget, best, whole },
                        ..c
                    },
                ),
                ..m
            },
            ActionModel::Shorten { item: c.item, budget },
        )
    } else {
        concluded(m, c, best, whole)
    }
}

/// An anchor that stands alone.
pub open spec fn anchor_item(anchor: u64) -> HistoryModel {
    text_item("user"@, anchor_text(anchor), Some(ContentItemKind::UserAnchor))
}

/// The size of the item that was asked for.
pub open spec fn measured(m: PlannerModel, size: Result<usize, Seq<char>>) -> (
    PlannerModel,
    ActionModel,
) {
    let c = m.cell->Some_0;
    match c.stage {
        StageModel::Anchored { candidate } => if size matches Ok(n) && n
            <= MAX_SPINE_MODEL_ITEM_WIRE_BYTES {
            continued(m, CellModel { item: candidate, next: c.next + 1, ..c })
        } else {
            (
                PlannerModel { cell: Some(CellModel { stage: StageModel::Anchor, ..c }), ..m },
                ActionModel::Measure(anchor_item(c.labels[c.next])),
            )
        },
        StageModel::Anchor => match size {
            Err(error) => refused(m, error),
            Ok(n) => if n > MAX_SPINE_MODEL_ITEM_WIRE_BYTES {
                refused(m, oversized_item_text(n as nat))
            } else {
                continued(
                    m,
                    CellModel {
                        anchor_items: c.anchor_items.push(anchor_item(c.labels[c.next])),
                        next: c.next + 1,
                        ..c
                    },
                )
            },
        },
        _ => match size {
            Err(error) => refused(m, error),
            Ok(n) => if n <= MAX_SPINE_MODEL_ITEM_WIRE_BYTES {
                settled(m, c, c.item, Some(n))
            } else if is_tool_output(c.item) {
                searched(m, c, 0, MAX_SPINE_MODEL_ITEM_WIRE_BYTES, None, n)
            } else {
                refused(m, oversized_owned_text(n as nat))
            },
        },
    }
}

/// The item that was shortened to the budget, and its size.
pub open spec fn shortened(
    m: PlannerModel,
    candidate: HistoryModel,
    size: Result<usize, Seq<char>>,
) -> (PlannerModel, ActionModel) {
    let c = m.cell->Some_0;
    match c.stage {
        StageModel::Search { low, high, budget, best, whole } => match size {
            Err(error) => refused(m, error),
            Ok(n) => if n <= MAX_SPINE_MODEL_ITEM_WIRE_BYTES {
                searched(m, c, (budget + 1) as usize, high, Some((candidate, n)), whole)
            } else if budget == 0 {
                concluded(m, c, best, whole)
            } else {
                searched(m, c, low, (budget - 1) as usize, best, whole)
            },
        },
        _ => (m, ActionModel::Done),
    }
}

/// Every bounded item fits, and so does every item found by a search.
pub open spec fn planner_inv(m: PlannerModel) -> bool {
    &&& forall|i: int|
        0 <= i < m.items.len() ==> ((#[trigger] m.items[i]).wire_bytes matches Some(n) ==> n
            <= MAX_SPINE_MODEL_ITEM_WIRE_BYTES)
    &&& m.cell matches Some(c) ==> cell_inv(c)
}

pub open spec fn cell_inv(c: CellModel) -> bool {
    &&& 0 <= c.next <= c.labels.len()
    &&& match c.stage {
        StageModel::Anchored { .. } | StageModel::Anchor => c.next < c.labels.len(),
        StageModel::Whole => true,
        StageModel::Search { low, high, budget, best, .. } => {
            &&& low <= budget <= high <= MAX_SPINE_MODEL_ITEM_WIRE_BYTES
            &&& best matches Some(found) ==> found.1 <= MAX_SPINE_MODEL_ITEM_WIRE_BYTES
        },
    }
}

/// Whether the plan waits for a size.
pub open spec fn awaits_size(m: PlannerModel) -> bool {
    m.cell matches Some(c) && !(c.stage is Search)
}

/// Whether the plan waits for a shortened item.
pub open spec fn awaits_shortening(m: PlannerModel) -> bool {
    m.cell matches Some(c) && c.stage is Search
}

pub open spec fn size_view(size: Result<usize, String>) -> Result<usize, Seq<char>> {
    match size {
        Ok(n) => Ok(n),
        Err(error) => Err(error@),
    }
}

fn oversized_owned(bytes: usize) -> (r: String)
    ensures
        r@ == oversized_owned_text(bytes as nat),
{
    let mut message = String::from_str("Spine-owned model item is ");
    message.append(decimal(bytes as u64).as_str());
    message.append(" serialized bytes; maximum is ");
    message.append(decimal(MAX_SPINE_MODEL_ITEM_WIRE_BYTES as u64).as_str());
    message
}

impl ContextPlanner {
    pub open spec fn wf(&self) -> bool {
        planner_inv(self@)
    }

    /// A plan with nothing in it.
    pub fn new() -> (r: Self)
        ensures
            r.wf(),
            r@ == (PlannerModel { items: Seq::empty(), user_messages: Seq::empty(), cell: None }),
    {
        let r = ContextPlanner { items: Vec::new(), user_messages: Vec::new(), cell: None };
        assert(planned_models(r.items@) =~= Seq::empty());
        assert(projection_views(r.user_messages@) =~= Seq::empty());
        r
    }

    fn settle(&mut self, cell: OpenCell, item: HistoryItem, wire_bytes: Option<usize>) -> (r:
        PlanAction)
        requires
            planner_inv(old(self)@),
            wire_bytes matches Some(n) ==> n <= MAX_SPINE_MODEL_ITEM_WIRE_BYTES,
        ensures
            final(self).wf(),
            (final(self)@, r@) == settled(old(self)@, cell.model(), item@, wire_bytes),
    {
        let ghost before = self@;
        let ghost anchors = item_models(cell.anchor_items@);
        let anchor_items = cell.anchor_items;
        let mut i: usize = 0;
        assert(anchors.take(0) =~= Seq::empty());
        assert(before.items + unbounded(anchors.take(0)) =~= before.items);
        while i < anchor_items.len()
            invariant
                i <= anchor_items@.len(),
                anchors == item_models(anchor_items@),
                self@.items == before.items + unbounded(anchors.take(i as int)),
                self@.user_messages == before.user_messages,
            decreases anchor_items@.len() - i,
        {
            let ghost earlier = self@.items;
            self.items.push(PlannedItem { item: anchor_items[i].copy(), wire_bytes: None });
            proof {
                let added = PlannedModel { item: anchors[i as int], wire_bytes: None };
                assert(self@.items =~= earlier.push(added));
                assert(unbounded(anchors.take(i + 1)) =~= unbounded(anchors.take(i as int)).push(
                    added,
                ));
                assert(self@.items =~= before.items + unbounded(anchors.take(i + 1)));
            }
            i = i + 1;
        }
        assert(anchors.take(i as int) =~= anchors);
        let ghost earlier = self@.items;
        self.items.push(PlannedItem { item, wire_bytes });
        assert(self@.items =~= earlier.push(PlannedModel { item: item@, wire_bytes }));
        self.cell = None;
        PlanAction::Done
    }

    fn refuse(&mut self, error: String) -> (r: PlanAction)
        requires
            planner_inv(old(self)@),
        ensures
            final(self).wf(),
            (final(self)@, r@) == refused(old(self)@, error@),
    {
        self.cell = None;
        PlanAction::Fail(error)
    }

    fn proceed(&mut self, cell: OpenCell) -> (r: PlanAction)
        requires
            planner_inv(old(self)@),
            cell.next <= cell.labels@.len(),
        ensures
            final(self).wf(),
            (final(self)@, r@) == continued(old(self)@, cell.model()),
    {
        let mut cell = cell;
        if cell.next < cell.labels.len() {
            let label = cell.labels[cell.next];
            let ghost before = self@;
            let message = message_from_response_item(0, &cell.item, false);
            self.user_messages.push(
                SpinetreeUserMessageProjectionEntry { anchor: label, body: message.content },
            );
            assert(self@.user_messages =~= before.user_messages.push(
                (label, item_text(cell.item@)),
            ));
            let mut candidate = cell.item.copy();
            SpineUserAnchor::new(label).prepend_to(&mut candidate);
            cell.stage = Stage::Anchored { candidate: candidate.copy() };
            self.cell = Some(cell);
            return PlanAction::Measure(candidate);
        }
        if cell.spine_owned {
            let item = cell.item.copy();
            cell.stage = Stage::Whole;
            self.cell = Some(cell);
            return PlanAction::Measure(item);
        }
        let item = cell.item.copy();
        self.settle(cell, item, None)
    }

    /// Opens the next cell of the plan: its item, the anchors that it carries,
    /// and whether the item belongs to the task tree.
    pub fn open_cell(&mut self, item: HistoryItem, labels: Vec<u64>, spine_owned: bool) -> (r:
        PlanAction)
        requires
            old(self).wf(),
            old(self)@.cell is None,
        ensures
            final(self).wf(),
            (final(self)@, r@) == opened(old(self)@, item@, labels@, spine_owned),
    {
        let cell = OpenCell {
            item,
            anchor_items: Vec::new(),
            labels,
            next: 0,
            spine_owned,
            stage: Stage::Whole,
        };
        assert(item_models(cell.anchor_items@) =~= Seq::empty());
        self.proceed(cell)
    }

    fn conclude(&mut self, cell: OpenCell, best: Option<Candidate>, whole: usize) -> (r: PlanAction)
        requires
            planner_inv(old(self)@),
            best matches Some(found) ==> found.wire_bytes <= MAX_SPINE_MODEL_ITEM_WIRE_BYTES,
        ensures
            final(self).wf(),
            (final(self)@, r@) == concluded(
                old(self)@,
                cell.model(),
                candidate_model(best),
                whole,
            ),
    {
        match best {
            Some(found) => self.settle(cell, found.item, Some(found.wire_bytes)),
            None => self.refuse(oversized_owned(whole)),
        }
    }

    fn search(
        &mut self,
        cell: OpenCell,
        low: usize,
        high: usize,
        best: Option<Candidate>,
        whole: usize,
    ) -> (r: PlanAction)
        requires
            planner_inv(old(self)@),
            cell.next <= cell.labels@.len(),
            high <= MAX_SPINE_MODEL_ITEM_WIRE_BYTES,
            best matches Some(found) ==> found.wire_bytes <= MAX_SPINE_MODEL_ITEM_WIRE_BYTES,
        ensures
            final(self).wf(),
            (final(self)@, r@) == searched(
                old(self)@,
                cell.model(),
                low,
                high,
                candidate_model(best),
                whole,
            ),
    {
        if low <= high {
            let mut cell = cell;
            let budget = low + (high - low) / 2;
            let item = cell.item.copy();
            cell.stage = Stage::Search { low, high, budget, best, whole };
            self.cell = Some(cell);
            return PlanAction::Shorten { item, budget };
        }
        self.conclude(cell, best, whole)
    }

    fn take_cell(&mut self) -> (r: OpenCell)
        requires
            old(self)@.cell is Some,
        ensures
            old(self)@.cell == Some(r.model()),
            final(self)@ == (PlannerModel { cell: None, ..old(self)@ }),
    {
        let mut taken = None;
        std::mem::swap(&mut taken, &mut self.cell);
        taken.unwrap()
    }

    /// The size of the item that was asked for, or why it could not be
    /// measured.
    pub fn measured(&mut self, size: Result<usize, String>) -> (r: PlanAction)
        requires
            old(self).wf(),
            awaits_size(old(self)@),
        ensures
            final(self).wf(),
            (final(self)@, r@) == measured(old(self)@, size_view(size)),
    {
        let mut cell = self.take_cell();
        let mut stage = Stage::Whole;
        std::mem::swap(&mut stage, &mut cell.stage);
        match stage {
            Stage::Anchored { candidate } => {
                let fits = match &size {
                    Ok(n) => *n <= MAX_SPINE_MODEL_ITEM_WIRE_BYTES,
                    Err(_) => false,
                };
                if fits {
                    cell.item = candidate;
                    cell.next = cell.next + 1;
                    return self.proceed(cell);
                }
                let anchor = SpineUserAnchor::new(cell.labels[cell.next]);
                let item = text_message_item(
                    anchor.role().name(),
                    anchor.render(),
                    Some(anchor.content_kind()),
                );
                cell.stage = Stage::Anchor;
                self.cell = Some(cell);
                PlanAction::Measure(item)
            },
            Stage::Anchor => {
                let n = match size {
                    Err(error) => {
                        return self.refuse(error);
                    },
                    Ok(n) => n,
                };
                if let Err(error) = validate_spine_model_item(n) {
                    return self.refuse(error);
                }
                let anchor = SpineUserAnchor::new(cell.labels[cell.next]);
                let ghost earlier = item_models(cell.anchor_items@);
                let item = text_message_item(
                    anchor.role().name(),
                    anchor.render(),
                    Some(anchor.content_kind()),
                );
                cell.anchor_items.push(item);
                assert(item_models(cell.anchor_items@) =~= earlier.push(item@));
                assert(cell.labels.len() == cell.labels@.len());
                cell.next = cell.next + 1;
                self.proceed(cell)
            },
            _ => {
                let n = match size {
                    Err(error) => {
                        return self.refuse(error);
                    },
                    Ok(n) => n,
                };
                if n <= MAX_SPINE_MODEL_ITEM_WIRE_BYTES {
                    let item = cell.item.copy();
                    return self.settle(cell, item, Some(n));
                }
                let tool_output = match &cell.item.body {
                    HistoryBody::FunctionCallOutput { .. } => true,
                    HistoryBody::CustomToolCallOutput { .. } => true,
                    _ => false,
                };
                if tool_output {
                    return self.search(cell, 0, MAX_SPINE_MODEL_ITEM_WIRE_BYTES, None, n);
                }
                self.refuse(oversized_owned(n))
            },
        }
    }

    /// The item shortened to the budget that was asked for, and its size or why
    /// it could not be measured.
    pub fn shortened(&mut self, candidate: HistoryItem, size: Result<usize, String>) -> (r:
        PlanAction)
        requires
            old(self).wf(),
            awaits_shortening(old(self)@),
        ensures
            final(self).wf(),
            (final(self)@, r@) == shortened(old(self)@, candidate@, size_view(size)),
    {
        let mut cell = self.take_cell();
        let mut stage = Stage::Whole;
        std::mem::swap(&mut stage, &mut cell.stage);
        match stage {
            Stage::Search { low, high, budget, best, whole } => {
                let n = match size {
                    Err(error) => {
                        return self.refuse(error);
                    },
                    Ok(n) => n,
                };
                if n <= MAX_SPINE_MODEL_ITEM_WIRE_BYTES {
                    let found = Candidate { item: candidate, wire_bytes: n };
                    return self.search(cell, budget + 1, high, Some(found), whole);
                }
                if budget == 0 {
                    return self.conclude(cell, best, whole);
                }
                self.search(cell, low, budget - 1, best, whole)
            },
            _ => {
                assert(false);
                PlanAction::Done
            },
        }
    }

    /// The items of the plan and what the user said, once every cell is
    /// settled.
    pub fn finish(self) -> (r: (Vec<PlannedItem>, Vec<SpinetreeUserMessageProjectionEntry>))
        requires
            self.wf(),
            self@.cell is None,
        ensures
            planned_models(r.0@) == self@.items,
            projection_views(r.1@) == self@.user_messages,
    {
        (self.items, self.user_messages)
    }
}

/// The size of an item's provider value, given the size of the encoded item or
/// why it could not be encoded.
pub fn projected_item_wire_bytes(encoded: Result<usize, String>) -> (r: Result<usize, String>)
    requires
        encoded matches Ok(n) ==> n + 12 <= usize::MAX,
    ensures
        match encoded {
            Ok(n) => r == Ok::<usize, String>((n + 12) as usize),
            Err(error) => r matches Err(message) && message@
                == "failed to serialize Spine provider input item: "@ + error@,
        },
{
    match encoded {
        Ok(n) => Ok(crate::fragments::spine_model_item_wire_bytes(n)),
        Err(error) => {
            let mut message = String::from_str("failed to serialize Spine provider input item: ");
            message.append(error.as_str());
            Err(message)
        },
    }
}

/// A source item without anchors goes through as it is, whatever its size.
pub proof fn source_items_are_kept(m: PlannerModel, item: HistoryModel)
    requires
        m.cell is None,
    ensures
        opened(m, item, Seq::empty(), false) == (
            PlannerModel {
                items: m.items.push(PlannedModel { item, wire_bytes: None }),
                user_messages: m.user_messages,
                cell: None,
            },
            ActionModel::Done,
        ),
{
    assert(m.items + unbounded(Seq::empty()) =~= m.items);
}

/// Where an item has no room for its anchor, the anchor goes before it as an
/// item of its own and the item stays as it is.
pub proof fn an_anchor_without_room_stands_alone(
    m: PlannerModel,
    item: HistoryModel,
    anchor: u64,
    too_large: usize,
    fits: usize,
)
    requires
        m.cell is None,
        too_large > MAX_SPINE_MODEL_ITEM_WIRE_BYTES,
        fits <= MAX_SPINE_MODEL_ITEM_WIRE_BYTES,
    ensures
        ({
            let asked = opened(m, item, seq![anchor], false).0;
            let again = measured(asked, Ok(too_large)).0;
            let done = measured(again, Ok(fits));
            &&& done.1 == ActionModel::Done
            &&& done.0.items == m.items.push(
                PlannedModel {
                    item: anchor_item(anchor),
                    wire_bytes: None,
                },
            ).push(PlannedModel { item, wire_bytes: None })
            &&& done.0.user_messages == m.user_messages.push((anchor, item_text(item)))
        }),
{
    let anchors = Seq::<HistoryModel>::empty().push(anchor_item(anchor));
    assert(m.items + unbounded(anchors) =~= m.items.push(
        PlannedModel { item: anchor_item(anchor), wire_bytes: None },
    ));
}

/// How far a search for a fit has still to go.
pub open spec fn search_room(m: PlannerModel) -> int {
    match m.cell {
        Some(c) => match c.stage {
            StageModel::Search { low, high, .. } => high - low + 1,
            _ => 0,
        },
        None => 0,
    }
}

/// Each answer narrows the search, so that it ends.
pub proof fn the_search_narrows(
    m: PlannerModel,
    candidate: HistoryModel,
    size: Result<usize, Seq<char>>,
)
    requires
        planner_inv(m),
        awaits_shortening(m),
    ensures
        search_room(shortened(m, candidate, size).0) < search_room(m),
        planner_inv(shortened(m, candidate, size).0),
{
}

/// Where an item that a plan needs is not there, the error names it; where one
/// of the tree's own items is too large, it says by how much.
pub proof fn what_cannot_be_planned_is_named(origin: CellOrigin, prompt: Seq<char>, bytes: nat)
    ensures
        origin matches CellOrigin::Source { identity, found: None } ==> cell_item_of(origin, prompt)
            == Err::<HistoryModel, Seq<char>>(
            "missing Codex source item for stable identity "@ + identity@,
        ),
        origin matches CellOrigin::Projection(item) ==> match materialized(
            seq![item],
            Seq::empty(),
            None,
            prompt,
        ) {
            Err(error) => cell_item_of(origin, prompt) == Err::<HistoryModel, Seq<char>>(error),
            Ok(items) => if items.len() > 0 {
                cell_item_of(origin, prompt) == Ok::<HistoryModel, Seq<char>>(items[0])
            } else {
                cell_item_of(origin, prompt) == Err::<HistoryModel, Seq<char>>(
                    "projected Spine context item rendered no Codex item"@,
                )
            },
        },
        oversized_owned_text(bytes) == "Spine-owned model item is "@ + decimal_text(bytes)
            + " serialized bytes; maximum is "@ + decimal_text(9_000),
{
}

} // verus!

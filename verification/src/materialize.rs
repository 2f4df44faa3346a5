//! Context items turned into items of the history.

use crate::fragments::{
    NodeContextCost, NodeStatus, SpawnOutcome, SpineMemoryFragment, SpineNodeFragment,
    SpineSpawnEvidenceFragment, SpineUserAnchor,
};
use crate::history::{
    canonical_projected_item, text_message, text_message_item, HistoryBody, HistoryItem,
    MessageRole,
};
use crate::rollout_source::{is_spine_source_item, RolloutEntry};
use crate::spawn::SpawnTask;
use crate::text::{decimal, same_text};
use vstd::prelude::*;

verus! {

use crate::fragments::{
    checked, evidence_fragment, evidence_members, memory_body, node_body, object_json, outcome_text,
    rendered, ContentItemKind,
};
use crate::history::{
    anchored, canonical_item, item_models, text_item, HistoryBodyModel, HistoryModel,
};
use crate::rollout_source::{entries, is_source, Numbered};
use crate::shapes::text_view;
use crate::text::decimal_text;

/// What a closed node left in the context.
#[allow(inconsistent_fields)]
#[derive(Debug, PartialEq, Eq)]
pub enum MemorySlot {
    User { owner_node: String, boundary: u64, anchor: u64 },
    Summary { owner_node: String, body: String },
    SpawnEvidence {
        owner_node: String,
        task: SpawnTask,
        outcome: SpawnOutcome,
        diagnostic: Option<String>,
        execution_ref: Option<String>,
    },
}

/// A native item by its place.
#[derive(Debug, PartialEq, Eq)]
pub enum NativeItemRef {
    Rollout { ordinal: u64 },
    CompactReplacement { compact_boundary: u64, index: u32 },
}

/// An item of a context plan.
#[allow(inconsistent_fields)]
#[derive(Debug, PartialEq, Eq)]
pub enum ContextItem {
    Message { boundary: u64, user_anchor: Option<u64> },
    SourceSpan { start: u64, end: u64 },
    SyntheticNode { node_id: String, summary: String, status: NodeStatus },
    MemorySlot(MemorySlot),
    Native { source: NativeItemRef },
}

/// The first source record with the given ordinal.
pub open spec fn source_at(source: Seq<Numbered>, ordinal: nat) -> Option<RolloutEntry>
    decreases source.len(),
{
    if source.len() == 0 {
        None
    } else if is_source(source[0].1) && source[0].0 == ordinal {
        Some(source[0].1)
    } else {
        source_at(source.skip(1), ordinal)
    }
}

/// The item at a place of the source; where the host has the item in its
/// history, as it stands there.
pub open spec fn item_at(
    source: Seq<Numbered>,
    boundary: u64,
    history: Option<Seq<HistoryModel>>,
) -> Option<HistoryModel> {
    match source_at(source, boundary as nat) {
        Some(RolloutEntry::ResponseItem { item, .. }) => Some(
            match history {
                Some(history) => canonical_item(history, item@),
                None => item@,
            },
        ),
        Some(RolloutEntry::InterAgentCommunication { item, .. }) => Some(item@),
        Some(RolloutEntry::Compacted { message, .. }) => Some(
            text_item("assistant"@, message@, None),
        ),
        _ => None,
    }
}

/// An item of the history that replaced the one compacted at a place.
pub open spec fn replacement_at(source: Seq<Numbered>, boundary: u64, index: u32) -> Option<
    HistoryModel,
> {
    match source_at(source, boundary as nat) {
        Some(RolloutEntry::Compacted { replacement_history: Some(items), .. }) => if index
            < items@.len() {
            Some(items@[index as int]@)
        } else {
            None
        },
        _ => None,
    }
}

/// The items of the host's history, where there is one.
pub open spec fn history_models(history: Option<&Vec<HistoryItem>>) -> Option<Seq<HistoryModel>> {
    match history {
        Some(history) => Some(item_models(history@)),
        None => None,
    }
}

fn find_source<'a>(source: &Vec<(usize, &'a RolloutEntry)>, boundary: u64) -> (r: Option<
    &'a RolloutEntry,
>)
    ensures
        match r {
            Some(entry) => source_at(entries(source@), boundary as nat) == Some(*entry),
            None => source_at(entries(source@), boundary as nat) is None,
        },
{
    let ghost all = entries(source@);
    let mut i: usize = 0;
    assert(all.skip(0) =~= all);
    while i < source.len()
        invariant
            i <= source@.len(),
            all == entries(source@),
            source_at(all, boundary as nat) == source_at(all.skip(i as int), boundary as nat),
        decreases source@.len() - i,
    {
        assert(all.skip(i as int)[0] == all[i as int]);
        assert(all.skip(i as int).skip(1) =~= all.skip(i + 1));
        let (ordinal, entry) = source[i];
        if is_spine_source_item(entry) && ordinal as u64 == boundary {
            return Some(entry);
        }
        i = i + 1;
    }
    None
}

pub fn response_item_at(
    source: &Vec<(usize, &RolloutEntry)>,
    boundary: u64,
    host_history: Option<&Vec<HistoryItem>>,
) -> (r: Option<HistoryItem>)
    ensures
        match r {
            Some(item) => item_at(entries(source@), boundary, history_models(host_history))
                == Some(item@),
            None => item_at(entries(source@), boundary, history_models(host_history)) is None,
        },
{
    match find_source(source, boundary) {
        Some(RolloutEntry::ResponseItem { item, .. }) => Some(
            match host_history {
                Some(history) => canonical_projected_item(history, item),
                None => item.copy(),
            },
        ),
        Some(RolloutEntry::InterAgentCommunication { item, .. }) => Some(item.copy()),
        Some(RolloutEntry::Compacted { message, .. }) => Some(
            text_message(MessageRole::Assistant, message.clone()),
        ),
        _ => None,
    }
}

pub fn compact_replacement_at(
    source: &Vec<(usize, &RolloutEntry)>,
    boundary: u64,
    replacement_index: u32,
) -> (r: Option<HistoryItem>)
    ensures
        match r {
            Some(item) => replacement_at(entries(source@), boundary, replacement_index) == Some(
                item@,
            ),
            None => replacement_at(entries(source@), boundary, replacement_index) is None,
        },
{
    match find_source(source, boundary) {
        Some(RolloutEntry::Compacted { replacement_history: Some(items), .. }) => {
            if (replacement_index as usize) < items.len() {
                Some(items[replacement_index as usize].copy())
            } else {
                None
            }
        },
        _ => None,
    }
}

/// The outcome of turning context into items: the items, or what is wrong.
pub type Outcome = Result<Seq<HistoryModel>, Seq<char>>;

/// One item, or what is wrong where there is none.
pub open spec fn one_item(item: Option<HistoryModel>, missing: Seq<char>) -> Outcome {
    match item {
        Some(item) => Ok(seq![item]),
        None => Err(missing),
    }
}

/// The items of a span of the source; places that hold none are passed over.
pub open spec fn span_items(
    source: Seq<Numbered>,
    history: Option<Seq<HistoryModel>>,
    start: int,
    end: int,
) -> Seq<HistoryModel>
    decreases end - start,
{
    if end <= start {
        Seq::empty()
    } else {
        let before = span_items(source, history, start, end - 1);
        match item_at(source, (end - 1) as u64, history) {
            Some(item) => before.push(item),
            None => before,
        }
    }
}

/// The item of a fragment, or what is wrong with the fragment.
pub open spec fn fragment_item(
    kind: ContentItemKind,
    role: Seq<char>,
    start: Seq<char>,
    body: Result<Seq<char>, Seq<char>>,
    end: Seq<char>,
) -> Outcome {
    match body {
        Ok(body) => Ok(seq![text_item(role, rendered(start, body, end), Some(kind))]),
        Err(error) => Err(error),
    }
}

/// Whether an item is a message of the user.
pub open spec fn is_user_message(item: HistoryModel) -> bool {
    item.body matches HistoryBodyModel::Message { role, .. } && role == "user"@
}

/// The items of a memory slot.
pub open spec fn slot_items(
    slot: MemorySlot,
    source: Seq<Numbered>,
    history: Option<Seq<HistoryModel>>,
) -> Outcome {
    match slot {
        MemorySlot::User { boundary, anchor, .. } => match item_at(source, boundary, history) {
            None => Err(
                "memory user slot at raw boundary "@ + decimal_text(boundary as nat)
                    + " has no native rollout source"@,
            ),
            Some(item) => if is_user_message(item) {
                Ok(seq![anchored(item, anchor)])
            } else {
                Err(
                    "memory user slot at raw boundary "@ + decimal_text(boundary as nat)
                        + " resolved to a non-user item"@,
                )
            },
        },
        MemorySlot::Summary { owner_node, body } => fragment_item(
            ContentItemKind::Memory,
            "user"@,
            "<spine_memory"@,
            checked(
                "memory"@,
                "<spine_memory"@,
                memory_body(owner_node@, body@),
                "</spine_memory>"@,
            ),
            "</spine_memory>"@,
        ),
        MemorySlot::SpawnEvidence { owner_node, task, outcome, diagnostic, execution_ref } => {
            fragment_item(
                ContentItemKind::SpawnEvidence,
                "user"@,
                "<spine_spawn_evidence"@,
                evidence_fragment(
                    owner_node@,
                    object_json(
                        evidence_members(
                            task.summary@,
                            task.prompt@,
                            outcome_text(outcome),
                            text_view(diagnostic),
                            text_view(execution_ref),
                        ),
                    ),
                ),
                "</spine_spawn_evidence>"@,
            )
        },
    }
}

/// The items of one context item.
pub open spec fn context_items(
    item: ContextItem,
    source: Seq<Numbered>,
    history: Option<Seq<HistoryModel>>,
    node_prompt: Seq<char>,
) -> Outcome {
    match item {
        ContextItem::Message { boundary, user_anchor } => one_item(
            match (item_at(source, boundary, history), user_anchor) {
                (Some(item), Some(anchor)) => Some(anchored(item, anchor)),
                (found, _) => found,
            },
            "message at raw boundary "@ + decimal_text(boundary as nat)
                + " has no native rollout source"@,
        ),
        ContextItem::SourceSpan { start, end } => Ok(
            span_items(source, history, start as int, end + 1),
        ),
        ContextItem::SyntheticNode { node_id, summary, status } => fragment_item(
            ContentItemKind::Node,
            "developer"@,
            "<spine_node"@,
            checked(
                "node"@,
                "<spine_node"@,
                node_body(node_id@, summary@, status, node_prompt),
                "</spine_node>"@,
            ),
            "</spine_node>"@,
        ),
        ContextItem::MemorySlot(slot) => slot_items(slot, source, history),
        ContextItem::Native { source: NativeItemRef::Rollout { ordinal } } => one_item(
            item_at(source, ordinal, history),
            "native rollout source "@ + decimal_text(ordinal as nat) + " is unavailable"@,
        ),
        ContextItem::Native {
            source: NativeItemRef::CompactReplacement { compact_boundary, index },
        } => one_item(
            replacement_at(source, compact_boundary, index),
            "compact replacement "@ + decimal_text(compact_boundary as nat) + ":"@ + decimal_text(
                index as nat,
            ) + " is unavailable"@,
        ),
    }
}

/// The items of a context, in order, or what is wrong with the first context
/// item that has none.
pub open spec fn materialized(
    context: Seq<ContextItem>,
    source: Seq<Numbered>,
    history: Option<Seq<HistoryModel>>,
    node_prompt: Seq<char>,
) -> Outcome
    decreases context.len(),
{
    if context.len() == 0 {
        Ok(Seq::empty())
    } else {
        match materialized(context.drop_last(), source, history, node_prompt) {
            Err(error) => Err(error),
            Ok(before) => match context_items(context.last(), source, history, node_prompt) {
                Err(error) => Err(error),
                Ok(items) => Ok(before + items),
            },
        }
    }
}

/// The view of the outcome.
pub open spec fn outcome_view(outcome: Result<Vec<HistoryItem>, String>) -> Outcome {
    match outcome {
        Ok(items) => Ok(item_models(items@)),
        Err(error) => Err(error@),
    }
}

fn single(item: HistoryItem) -> (r: Vec<HistoryItem>)
    ensures
        item_models(r@) == seq![item@],
{
    let mut items: Vec<HistoryItem> = Vec::new();
    items.push(item);
    assert(item_models(items@) =~= seq![item@]);
    items
}

fn numbered_message(before: &str, number: u64, after: &str) -> (r: String)
    ensures
        r@ == before@ + decimal_text(number as nat) + after@,
{
    let mut message = String::from_str(before);
    message.append(decimal(number).as_str());
    message.append(after);
    message
}

fn found(item: Option<HistoryItem>, missing: String) -> (r: Result<Vec<HistoryItem>, String>)
    ensures
        outcome_view(r) == one_item(
            match item {
                Some(item) => Some(item@),
                None => None,
            },
            missing@,
        ),
{
    match item {
        Some(item) => Ok(single(item)),
        None => Err(missing),
    }
}

fn materialize_slot(
    slot: &MemorySlot,
    source: &Vec<(usize, &RolloutEntry)>,
    host_history: Option<&Vec<HistoryItem>>,
) -> (r: Result<Vec<HistoryItem>, String>)
    ensures
        outcome_view(r) == slot_items(*slot, entries(source@), history_models(host_history)),
{
    match slot {
        MemorySlot::User { boundary, anchor, .. } => {
            match response_item_at(source, *boundary, host_history) {
                None => Err(
                    numbered_message(
                        "memory user slot at raw boundary ",
                        *boundary,
                        " has no native rollout source",
                    ),
                ),
                Some(item) => {
                    let from_user = match &item.body {
                        HistoryBody::Message { role, .. } => same_text(role.as_str(), "user"),
                        _ => false,
                    };
                    if !from_user {
                        return Err(
                            numbered_message(
                                "memory user slot at raw boundary ",
                                *boundary,
                                " resolved to a non-user item",
                            ),
                        );
                    }
                    let mut item = item;
                    SpineUserAnchor::new(*anchor).prepend_to(&mut item);
                    Ok(single(item))
                },
            }
        },
        MemorySlot::Summary { owner_node, body } => {
            match SpineMemoryFragment::new(owner_node.as_str(), body.as_str()) {
                Ok(fragment) => Ok(
                    single(
                        text_message_item(
                            fragment.role().name(),
                            fragment.render(),
                            Some(fragment.content_kind()),
                        ),
                    ),
                ),
                Err(error) => Err(error),
            }
        },
        MemorySlot::SpawnEvidence { owner_node, task, outcome, diagnostic, execution_ref } => {
            let diagnostic = match diagnostic {
                Some(text) => Some(text.as_str()),
                None => None,
            };
            let execution_ref = match execution_ref {
                Some(text) => Some(text.as_str()),
                None => None,
            };
            match SpineSpawnEvidenceFragment::new(
                owner_node.as_str(),
                task.summary.as_str(),
                task.prompt.as_str(),
                *outcome,
                diagnostic,
                execution_ref,
            ) {
                Ok(fragment) => Ok(
                    single(
                        text_message_item(
                            fragment.role().name(),
                            fragment.render(),
                            Some(fragment.content_kind()),
                        ),
                    ),
                ),
                Err(error) => Err(error),
            }
        },
    }
}

fn materialize_span(
    start: u64,
    end: u64,
    source: &Vec<(usize, &RolloutEntry)>,
    host_history: Option<&Vec<HistoryItem>>,
) -> (r: Vec<HistoryItem>)
    ensures
        item_models(r@) == span_items(
            entries(source@),
            history_models(host_history),
            start as int,
            end + 1,
        ),
{
    let ghost all = entries(source@);
    let ghost history = history_models(host_history);
    let mut items: Vec<HistoryItem> = Vec::new();
    assert(item_models(items@) =~= Seq::empty());
    if start > end {
        return items;
    }
    let mut at: u64 = start;
    let mut more = true;
    while more
        invariant
            all == entries(source@),
            history == history_models(host_history),
            start <= at <= end,
            item_models(items@) == span_items(
                all,
                history,
                start as int,
                if more {
                    at as int
                } else {
                    end + 1
                },
            ),
        decreases end - at,
                if more {
                    1int
                } else {
                    0int
                },
    {
        if let Some(item) = response_item_at(source, at, host_history) {
            let ghost before = item_models(items@);
            items.push(item);
            assert(item_models(items@) =~= before.push(item@));
        }
        if at < end {
            at = at + 1;
        } else {
            more = false;
        }
    }
    items
}

/// What a node costs, as far as that is known.
pub open spec fn cost_of(costs: Seq<(String, NodeContextCost)>, node_id: Seq<char>) -> NodeContextCost
    decreases costs.len(),
{
    if costs.len() == 0 {
        NodeContextCost::Unavailable
    } else if costs[0].0@ == node_id {
        costs[0].1
    } else {
        cost_of(costs.skip(1), node_id)
    }
}

fn node_cost(costs: &Vec<(String, NodeContextCost)>, node_id: &str) -> (r: NodeContextCost)
    ensures
        r == cost_of(costs@, node_id@),
{
    let mut i: usize = 0;
    assert(costs@.skip(0) =~= costs@);
    while i < costs.len()
        invariant
            i <= costs@.len(),
            cost_of(costs@, node_id@) == cost_of(costs@.skip(i as int), node_id@),
        decreases costs@.len() - i,
    {
        assert(costs@.skip(i as int).skip(1) =~= costs@.skip(i + 1));
        if same_text(costs[i].0.as_str(), node_id) {
            return costs[i].1;
        }
        i = i + 1;
    }
    NodeContextCost::Unavailable
}

fn materialize_item(
    item: &ContextItem,
    source: &Vec<(usize, &RolloutEntry)>,
    host_history: Option<&Vec<HistoryItem>>,
    node_context_costs: &Vec<(String, NodeContextCost)>,
    node_prompt: &str,
) -> (r: Result<Vec<HistoryItem>, String>)
    ensures
        outcome_view(r) == context_items(
            *item,
            entries(source@),
            history_models(host_history),
            node_prompt@,
        ),
{
    match item {
        ContextItem::Message { boundary, user_anchor } => {
            let missing = numbered_message(
                "message at raw boundary ",
                *boundary,
                " has no native rollout source",
            );
            match response_item_at(source, *boundary, host_history) {
                None => Err(missing),
                Some(item) => {
                    let mut item = item;
                    if let Some(anchor) = user_anchor {
                        SpineUserAnchor::new(*anchor).prepend_to(&mut item);
                    }
                    Ok(single(item))
                },
            }
        },
        ContextItem::SourceSpan { start, end } => Ok(
            materialize_span(*start, *end, source, host_history),
        ),
        ContextItem::SyntheticNode { node_id, summary, status } => {
            let cost = node_cost(node_context_costs, node_id.as_str());
            match SpineNodeFragment::new(
                node_id.as_str(),
                summary.as_str(),
                *status,
                cost,
                node_prompt,
            ) {
                Ok(fragment) => Ok(
                    single(
                        text_message_item(
                            fragment.role().name(),
                            fragment.render(),
                            Some(fragment.content_kind()),
                        ),
                    ),
                ),
                Err(error) => Err(error),
            }
        },
        ContextItem::MemorySlot(slot) => materialize_slot(slot, source, host_history),
        ContextItem::Native { source: NativeItemRef::Rollout { ordinal } } => {
            let missing = numbered_message("native rollout source ", *ordinal, " is unavailable");
            found(response_item_at(source, *ordinal, host_history), missing)
        },
        ContextItem::Native {
            source: NativeItemRef::CompactReplacement { compact_boundary, index },
        } => {
            let mut missing = numbered_message("compact replacement ", *compact_boundary, ":");
            missing.append(decimal(*index as u64).as_str());
            missing.append(" is unavailable");
            found(compact_replacement_at(source, *compact_boundary, *index), missing)
        },
    }
}

/// The items of a context, in order.
pub fn materialize_context(
    context: &Vec<ContextItem>,
    source: &Vec<(usize, &RolloutEntry)>,
    host_history: Option<&Vec<HistoryItem>>,
    node_context_costs: &Vec<(String, NodeContextCost)>,
    node_prompt: &str,
) -> (r: Result<Vec<HistoryItem>, String>)
    ensures
        outcome_view(r) == materialized(
            context@,
            entries(source@),
            history_models(host_history),
            node_prompt@,
        ),
{
    let ghost all = entries(source@);
    let ghost history = history_models(host_history);
    let mut items: Vec<HistoryItem> = Vec::new();
    let mut i: usize = 0;
    proof {
        assert(context@.take(0) =~= Seq::empty());
        assert(item_models(items@) =~= Seq::empty());
    }
    while i < context.len()
        invariant
            i <= context@.len(),
            all == entries(source@),
            history == history_models(host_history),
            materialized(context@.take(i as int), all, history, node_prompt@) == Ok::<
                Seq<HistoryModel>,
                Seq<char>,
            >(item_models(items@)),
        decreases context@.len() - i,
    {
        proof {
            let upto = context@.take(i + 1);
            assert(upto.drop_last() =~= context@.take(i as int));
            assert(upto.last() == context@[i as int]);
        }
        match materialize_item(
            &context[i],
            source,
            host_history,
            node_context_costs,
            node_prompt,
        ) {
            Ok(more) => {
                let mut more = more;
                let ghost before = item_models(items@);
                let ghost added = item_models(more@);
                items.append(&mut more);
                assert(item_models(items@) =~= before + added);
            },
            Err(error) => {
                proof {
                    lemma_first_error(context@, all, history, node_prompt@, i + 1);
                }
                return Err(error);
            },
        }
        i = i + 1;
    }
    assert(context@.take(i as int) =~= context@);
    Ok(items)
}

/// What is wrong with a part of a context is wrong with all of it.
proof fn lemma_first_error(
    context: Seq<ContextItem>,
    source: Seq<Numbered>,
    history: Option<Seq<HistoryModel>>,
    node_prompt: Seq<char>,
    n: int,
)
    requires
        0 <= n <= context.len(),
        materialized(context.take(n), source, history, node_prompt) is Err,
    ensures
        materialized(context, source, history, node_prompt) == materialized(
            context.take(n),
            source,
            history,
            node_prompt,
        ),
    decreases context.len() - n,
{
    if n == context.len() {
        assert(context.take(n) =~= context);
    } else {
        assert(context.take(n + 1).drop_last() =~= context.take(n));
        lemma_first_error(context, source, history, node_prompt, n + 1);
    }
}

/// The cost of a node is the first that is noted under its name; a node under
/// whose name none is noted has none available.
pub proof fn the_first_cost_counts(
    costs: Seq<(String, NodeContextCost)>,
    node_id: Seq<char>,
    i: int,
)
    requires
        0 <= i <= costs.len(),
        forall|j: int| 0 <= j < i ==> (#[trigger] costs[j]).0@ != node_id,
    ensures
        i < costs.len() && costs[i].0@ == node_id ==> cost_of(costs, node_id) == costs[i].1,
        i == costs.len() ==> cost_of(costs, node_id) is Unavailable,
    decreases i,
{
    if i > 0 {
        let rest = costs.skip(1);
        assert(costs[0].0@ != node_id);
        assert forall|j: int| 0 <= j < i - 1 implies (#[trigger] rest[j]).0@ != node_id by {
            assert(rest[j] == costs[j + 1]);
        }
        the_first_cost_counts(rest, node_id, i - 1);
        if i < costs.len() {
            assert(rest[i - 1] == costs[i]);
        }
    }
}

/// What the model should see but is not there is named in the error: a message
/// or a slot by its boundary, a record by its place, a replacement by both.
pub proof fn what_is_missing_is_named(
    item: ContextItem,
    source: Seq<Numbered>,
    history: Option<Seq<HistoryModel>>,
    prompt: Seq<char>,
)
    ensures
        item matches ContextItem::Message { boundary, .. } ==> (item_at(source, boundary, history)
            is None ==> context_items(item, source, history, prompt) == Err::<
            Seq<HistoryModel>,
            Seq<char>,
        >(
            "message at raw boundary "@ + decimal_text(boundary as nat)
                + " has no native rollout source"@,
        )),
        item matches ContextItem::Native { source: NativeItemRef::Rollout { ordinal } } ==> (item_at(
            source,
            ordinal,
            history,
        ) is None ==> context_items(item, source, history, prompt) == Err::<
            Seq<HistoryModel>,
            Seq<char>,
        >("native rollout source "@ + decimal_text(ordinal as nat) + " is unavailable"@)),
        item matches ContextItem::Native {
            source: NativeItemRef::CompactReplacement { compact_boundary, index },
        } ==> (replacement_at(source, compact_boundary, index) is None ==> context_items(
            item,
            source,
            history,
            prompt,
        ) == Err::<Seq<HistoryModel>, Seq<char>>(
            "compact replacement "@ + decimal_text(compact_boundary as nat) + ":"@ + decimal_text(
                index as nat,
            ) + " is unavailable"@,
        )),
        item matches ContextItem::MemorySlot(MemorySlot::User { boundary, .. }) ==> match item_at(
            source,
            boundary,
            history,
        ) {
            None => context_items(item, source, history, prompt) == Err::<
                Seq<HistoryModel>,
                Seq<char>,
            >(
                "memory user slot at raw boundary "@ + decimal_text(boundary as nat)
                    + " has no native rollout source"@,
            ),
            Some(found) => !(found.body matches HistoryBodyModel::Message { role, .. } && role
                == "user"@) ==> context_items(item, source, history, prompt) == Err::<
                Seq<HistoryModel>,
                Seq<char>,
            >(
                "memory user slot at raw boundary "@ + decimal_text(boundary as nat)
                    + " resolved to a non-user item"@,
            ),
        },
{
}

} // verus!

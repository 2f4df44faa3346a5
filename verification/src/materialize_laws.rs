//! What the model sees of a context plan.

use vstd::prelude::*;

verus! {

use crate::fragments::{
    byte_limit_holds, evidence_members, escaped, object_json, ContentItemKind, NodeStatus,
};
use crate::history::{
    anchored, item_text, same_identity, ContentModel, HistoryBodyModel, HistoryModel,
};
use crate::history_laws::{a_message_says_its_texts, the_history_stands_for_its_items};
use crate::materialize::{
    context_items, item_at, materialized, replacement_at, source_at, span_items, ContextItem,
    MemorySlot, NativeItemRef, Outcome,
};
use crate::rollout_source::{Numbered, RolloutEntry};
use crate::shapes::text_view;
use crate::text::{blank, byte_len, decimal_text, trimmed};

/// Whether a record holds something that the model may see.
pub open spec fn holds_an_item(entry: RolloutEntry) -> bool {
    entry is ResponseItem || entry is InterAgentCommunication || entry is Compacted
}

/// Whether the record at `i` is the first of the source with its ordinal.
pub open spec fn is_first_at(source: Seq<Numbered>, i: int, ordinal: nat) -> bool {
    &&& 0 <= i < source.len()
    &&& source[i].0 == ordinal
    &&& holds_an_item(source[i].1)
    &&& forall|j: int|
        0 <= j < i ==> !(holds_an_item((#[trigger] source[j]).1) && source[j].0 == ordinal)
}

proof fn lemma_source_at(source: Seq<Numbered>, i: int, ordinal: nat)
    requires
        is_first_at(source, i, ordinal),
    ensures
        source_at(source, ordinal) == Some(source[i].1),
    decreases source.len(),
{
    if i > 0 {
        let rest = source.skip(1);
        assert(!(holds_an_item(source[0].1) && source[0].0 == ordinal));
        assert(rest[i - 1] == source[i]);
        assert forall|j: int| 0 <= j < i - 1 implies !(holds_an_item((#[trigger] rest[j]).1)
            && rest[j].0 == ordinal) by {
            assert(rest[j] == source[j + 1]);
        }
        lemma_source_at(rest, i - 1, ordinal);
    }
}

proof fn lemma_no_source_at(source: Seq<Numbered>, ordinal: nat)
    requires
        forall|j: int|
            0 <= j < source.len() ==> !(holds_an_item((#[trigger] source[j]).1) && source[j].0
                == ordinal),
    ensures
        source_at(source, ordinal) is None,
    decreases source.len(),
{
    if source.len() > 0 {
        let rest = source.skip(1);
        assert(!(holds_an_item(source[0].1) && source[0].0 == ordinal));
        assert forall|j: int| 0 <= j < rest.len() implies !(holds_an_item((#[trigger] rest[j]).1)
            && rest[j].0 == ordinal) by {
            assert(rest[j] == source[j + 1]);
        }
        lemma_no_source_at(rest, ordinal);
    }
}

/// Every record of the source yields an item: a message from another agent is
/// seen as it is, an item of the history as it is or as the host's history has
/// it, and a compaction as a message of the assistant that says its summary.
pub proof fn every_source_record_is_seen(
    source: Seq<Numbered>,
    i: int,
    boundary: u64,
    history: Option<Seq<HistoryModel>>,
)
    requires
        is_first_at(source, i, boundary as nat),
    ensures
        item_at(source, boundary, history) matches Some(seen) && match source[i].1 {
            RolloutEntry::InterAgentCommunication { item, .. } => seen == item@,
            RolloutEntry::ResponseItem { item, .. } => {
                &&& history is None ==> seen == item@
                &&& history matches Some(history) ==> {
                    ||| seen == item@ && forall|k: int|
                        0 <= k < history.len() ==> !same_identity(#[trigger] history[k], item@)
                    ||| same_identity(seen, item@) && history.contains(seen)
                }
            },
            RolloutEntry::Compacted { message, .. } => item_text(seen) == message@ && seen.id
                is None && (seen.body matches HistoryBodyModel::Message { role, content } && role
                == "assistant"@ && content == seq![
                ContentModel::InputText { text: message@, kind: None },
            ]),
            _ => false,
        },
{
    lemma_source_at(source, i, boundary as nat);
    match source[i].1 {
        RolloutEntry::ResponseItem { item, .. } => {
            if let Some(history) = history {
                the_history_stands_for_its_items(history, item@);
                if exists|k: int|
                    0 <= k < history.len() && same_identity(#[trigger] history[k], item@) {
                    let k = choose|k: int|
                        0 <= k < history.len() && same_identity(#[trigger] history[k], item@);
                    let first = lemma_first_same(history, item@, k);
                    assert(history[first] == item_at(source, boundary, Some(history))->Some_0);
                }
            }
        },
        RolloutEntry::Compacted { message, .. } => {
            let seen = item_at(source, boundary, history)->Some_0;
            a_message_says_its_texts(
                seen,
                "assistant"@,
                Seq::empty(),
                ContentModel::InputText { text: message@, kind: None },
            );
        },
        _ => {},
    }
}

proof fn lemma_first_same(history: Seq<HistoryModel>, item: HistoryModel, k: int) -> (first: int)
    requires
        0 <= k < history.len(),
        same_identity(history[k], item),
    ensures
        0 <= first <= k,
        same_identity(history[first], item),
        forall|j: int| 0 <= j < first ==> !same_identity(#[trigger] history[j], item),
    decreases k,
{
    if exists|j: int| 0 <= j < k && same_identity(#[trigger] history[j], item) {
        let j = choose|j: int| 0 <= j < k && same_identity(#[trigger] history[j], item);
        lemma_first_same(history, item, j)
    } else {
        k
    }
}

/// A place without a record of the source yields nothing.
pub proof fn nothing_is_seen_where_nothing_is(
    source: Seq<Numbered>,
    boundary: u64,
    history: Option<Seq<HistoryModel>>,
)
    requires
        forall|j: int|
            0 <= j < source.len() ==> !(holds_an_item((#[trigger] source[j]).1) && source[j].0
                == boundary),
    ensures
        item_at(source, boundary, history) is None,
{
    lemma_no_source_at(source, boundary as nat);
}

/// A span whose places all hold records yields one item for each, in order.
pub proof fn a_span_shows_every_place(
    source: Seq<Numbered>,
    history: Option<Seq<HistoryModel>>,
    start: int,
    end: int,
)
    requires
        0 <= start <= end <= u64::MAX + 1,
        forall|at: int|
            start <= at < end ==> item_at(source, #[trigger] (at as u64), history) is Some,
    ensures
        span_items(source, history, start, end).len() == end - start,
        forall|k: int|
            0 <= k < end - start ==> Some(#[trigger] span_items(source, history, start, end)[k])
                == item_at(source, (start + k) as u64, history),
    decreases end - start,
{
    if start < end {
        a_span_shows_every_place(source, history, start, end - 1);
        assert(item_at(source, (end - 1) as u64, history) is Some);
        let before = span_items(source, history, start, end - 1);
        assert forall|k: int| 0 <= k < end - start implies Some(
            #[trigger] span_items(source, history, start, end)[k],
        ) == item_at(source, (start + k) as u64, history) by {
            if k < before.len() {
                assert(span_items(source, history, start, end)[k] == before[k]);
            }
        }
    }
}

/// A span shows what its parts show, one after the other, and passes over places
/// that hold nothing.
pub proof fn a_span_shows_its_parts(
    source: Seq<Numbered>,
    history: Option<Seq<HistoryModel>>,
    start: int,
    middle: int,
    end: int,
)
    requires
        start <= middle <= end,
    ensures
        span_items(source, history, start, end) == span_items(source, history, start, middle)
            + span_items(source, history, middle, end),
        start == end ==> span_items(source, history, start, end).len() == 0,
        middle + 1 == end && item_at(source, middle as u64, history) is None ==> span_items(
            source,
            history,
            start,
            end,
        ) == span_items(source, history, start, middle),
    decreases end - middle,
{
    if middle < end {
        a_span_shows_its_parts(source, history, start, middle, end - 1);
        assert(span_items(source, history, start, end) =~= span_items(
            source,
            history,
            start,
            middle,
        ) + span_items(source, history, middle, end));
    } else {
        assert(span_items(source, history, middle, end) =~= Seq::empty());
        assert(span_items(source, history, start, end) =~= span_items(
            source,
            history,
            start,
            middle,
        ) + span_items(source, history, middle, end));
    }
}

/// A context is shown item after item, and where one cannot be shown, nothing
/// is, for the reason of the first such one.
pub proof fn a_context_is_shown_in_order(
    above: Seq<ContextItem>,
    below: Seq<ContextItem>,
    source: Seq<Numbered>,
    history: Option<Seq<HistoryModel>>,
    node_prompt: Seq<char>,
)
    ensures
        materialized(above + below, source, history, node_prompt) == match (
            materialized(above, source, history, node_prompt),
            materialized(below, source, history, node_prompt),
        ) {
            (Ok(first), Ok(then)) => Ok::<Seq<HistoryModel>, Seq<char>>(first + then),
            (Err(error), _) => Err(error),
            (Ok(_), Err(error)) => Err(error),
        },
        materialized(Seq::empty(), source, history, node_prompt) == Ok::<
            Seq<HistoryModel>,
            Seq<char>,
        >(Seq::empty()),
    decreases below.len(),
{
    if below.len() == 0 {
        assert(above + below =~= above);
        if let Ok(first) = materialized(above, source, history, node_prompt) {
            assert(first + Seq::<HistoryModel>::empty() =~= first);
        }
    } else {
        a_context_is_shown_in_order(above, below.drop_last(), source, history, node_prompt);
        assert((above + below).drop_last() =~= above + below.drop_last());
        assert((above + below).last() == below.last());
        match (
            materialized(above, source, history, node_prompt),
            materialized(below.drop_last(), source, history, node_prompt),
            context_items(below.last(), source, history, node_prompt),
        ) {
            (Ok(a), Ok(b), Ok(c)) => {
                assert(a + b + c =~= a + (b + c));
            },
            _ => {},
        }
    }
}

/// What one item of a context shows.
pub open spec fn shown(
    item: ContextItem,
    source: Seq<Numbered>,
    history: Option<Seq<HistoryModel>>,
    node_prompt: Seq<char>,
) -> Outcome {
    materialized(seq![item], source, history, node_prompt)
}

proof fn lemma_shown(
    item: ContextItem,
    source: Seq<Numbered>,
    history: Option<Seq<HistoryModel>>,
    node_prompt: Seq<char>,
)
    ensures
        shown(item, source, history, node_prompt) == context_items(
            item,
            source,
            history,
            node_prompt,
        ),
{
    assert(seq![item].drop_last() =~= Seq::empty());
    assert(materialized(Seq::empty(), source, history, node_prompt) == Ok::<
        Seq<HistoryModel>,
        Seq<char>,
    >(Seq::empty()));
    if let Ok(items) = context_items(item, source, history, node_prompt) {
        assert(Seq::<HistoryModel>::empty() + items =~= items);
    }
}

/// A message and a native item show the record at their place, one item each; a
/// span shows both of its ends and all between them. A message of the user shows
/// its anchor, where it has one.
pub proof fn places_show_their_records(
    source: Seq<Numbered>,
    history: Option<Seq<HistoryModel>>,
    node_prompt: Seq<char>,
    boundary: u64,
    anchor: u64,
    end: u64,
)
    ensures
        match item_at(source, boundary, history) {
            Some(item) => {
                &&& shown(
                    ContextItem::Message { boundary, user_anchor: None },
                    source,
                    history,
                    node_prompt,
                ) == Ok::<Seq<HistoryModel>, Seq<char>>(seq![item])
                &&& shown(
                    ContextItem::Message { boundary, user_anchor: Some(anchor) },
                    source,
                    history,
                    node_prompt,
                ) == Ok::<Seq<HistoryModel>, Seq<char>>(seq![anchored(item, anchor)])
                &&& shown(
                    ContextItem::Native { source: NativeItemRef::Rollout { ordinal: boundary } },
                    source,
                    history,
                    node_prompt,
                ) == Ok::<Seq<HistoryModel>, Seq<char>>(seq![item])
                &&& shown(
                    ContextItem::SourceSpan { start: boundary, end: boundary },
                    source,
                    history,
                    node_prompt,
                ) == Ok::<Seq<HistoryModel>, Seq<char>>(seq![item])
            },
            None => {
                &&& shown(
                    ContextItem::Message { boundary, user_anchor: None },
                    source,
                    history,
                    node_prompt,
                ) == Err::<Seq<HistoryModel>, Seq<char>>(
                    "message at raw boundary "@ + decimal_text(boundary as nat)
                        + " has no native rollout source"@,
                )
                &&& shown(
                    ContextItem::Native { source: NativeItemRef::Rollout { ordinal: boundary } },
                    source,
                    history,
                    node_prompt,
                ) == Err::<Seq<HistoryModel>, Seq<char>>(
                    "native rollout source "@ + decimal_text(boundary as nat) + " is unavailable"@,
                )
            },
        },
        boundary <= end ==> shown(
            ContextItem::SourceSpan { start: boundary, end },
            source,
            history,
            node_prompt,
        ) == Ok::<Seq<HistoryModel>, Seq<char>>(
            span_items(source, history, boundary as int, end + 1),
        ),
{
    lemma_shown(
        ContextItem::Message { boundary, user_anchor: None },
        source,
        history,
        node_prompt,
    );
    lemma_shown(
        ContextItem::Message { boundary, user_anchor: Some(anchor) },
        source,
        history,
        node_prompt,
    );
    lemma_shown(
        ContextItem::Native { source: NativeItemRef::Rollout { ordinal: boundary } },
        source,
        history,
        node_prompt,
    );
    lemma_shown(
        ContextItem::SourceSpan { start: boundary, end: boundary },
        source,
        history,
        node_prompt,
    );
    lemma_shown(ContextItem::SourceSpan { start: boundary, end }, source, history, node_prompt);
    if let Some(item) = item_at(source, boundary, history) {
        reveal_with_fuel(span_items, 2);
        assert(span_items(source, history, boundary as int, boundary + 1) =~= seq![item]);
    }
}

/// A replacement of a compacted history shows the item that stands at its index,
/// and only there.
pub proof fn replacements_are_shown_by_their_index(
    source: Seq<Numbered>,
    i: int,
    boundary: u64,
    index: u32,
)
    requires
        is_first_at(source, i, boundary as nat),
    ensures
        match source[i].1 {
            RolloutEntry::Compacted { replacement_history: Some(items), .. } => match replacement_at(
                source,
                boundary,
                index,
            ) {
                Some(item) => index < items@.len() && item == items@[index as int]@,
                None => index >= items@.len(),
            },
            _ => replacement_at(source, boundary, index) is None,
        },
{
    lemma_source_at(source, i, boundary as nat);
}

/// Whether an outcome is one message with one text, of the given role and kind,
/// that opens and closes with a tag around a text.
pub open spec fn is_tagged(
    outcome: Outcome,
    role: Seq<char>,
    kind: ContentItemKind,
    text: Seq<char>,
) -> bool {
    outcome matches Ok(items) && items.len() == 1 && items[0].id is None && items[0].payload is None
        && (items[0].body matches HistoryBodyModel::Message { role: under, content } && under
        == role && content == seq![ContentModel::InputText { text, kind: Some(kind) }])
}

/// A node is shown to the model by the developer: its number, its summary and
/// its status in the tag, and where work goes on in it, the prompt for a node.
pub proof fn a_node_is_shown(
    source: Seq<Numbered>,
    history: Option<Seq<HistoryModel>>,
    node_prompt: Seq<char>,
    node_id: String,
    summary: String,
    status: NodeStatus,
)
    ensures
        ({
            let opening = "<spine_node"@ + (" id=\""@ + node_id@ + "\" summary=\""@ + escaped(
                summary@,
            ) + "\" status=\""@ + match status {
                NodeStatus::Live => "live"@,
                NodeStatus::Opened => "opened"@,
                NodeStatus::Closed => "closed"@,
                NodeStatus::Compacted => "compacted"@,
            } + "\">"@);
            let body = if status is Closed || status is Compacted {
                Seq::<char>::empty()
            } else if blank(node_prompt) {
                "\n"@
            } else {
                "\n"@ + trimmed(node_prompt) + "\n"@
            };
            let text = opening + body + "</spine_node>"@;
            let outcome = shown(
                ContextItem::SyntheticNode { node_id, summary, status },
                source,
                history,
                node_prompt,
            );
            &&& byte_len(text) <= 8000 ==> is_tagged(
                outcome,
                "developer"@,
                ContentItemKind::Node,
                text,
            )
            &&& byte_len(text) > 8000 ==> outcome is Err
        }),
{
    let item = ContextItem::SyntheticNode { node_id, summary, status };
    lemma_shown(item, source, history, node_prompt);
    let inner = crate::fragments::node_body(node_id@, summary@, status, node_prompt);
    byte_limit_holds("node"@, "<spine_node"@, inner, "</spine_node>"@);
    let opening = "<spine_node"@ + (" id=\""@ + node_id@ + "\" summary=\""@ + escaped(summary@)
        + "\" status=\""@ + match status {
        NodeStatus::Live => "live"@,
        NodeStatus::Opened => "opened"@,
        NodeStatus::Closed => "closed"@,
        NodeStatus::Compacted => "compacted"@,
    } + "\">"@);
    let body = if status is Closed || status is Compacted {
        Seq::<char>::empty()
    } else if blank(node_prompt) {
        "\n"@
    } else {
        "\n"@ + trimmed(node_prompt) + "\n"@
    };
    assert(opening + body + "</spine_node>"@ =~= "<spine_node"@ + inner + "</spine_node>"@);
}

/// The memory that a closed node left is shown whole, as from the user, under
/// the node's number.
pub proof fn a_memory_is_shown_whole(
    source: Seq<Numbered>,
    history: Option<Seq<HistoryModel>>,
    node_prompt: Seq<char>,
    owner_node: String,
    body: String,
)
    ensures
        ({
            let text = "<spine_memory"@ + (" node_id=\""@ + owner_node@ + "\">\n"@) + body@
                + "\n"@ + "</spine_memory>"@;
            let outcome = shown(
                ContextItem::MemorySlot(MemorySlot::Summary { owner_node, body }),
                source,
                history,
                node_prompt,
            );
            &&& byte_len(text) <= 8000 ==> is_tagged(
                outcome,
                "user"@,
                ContentItemKind::Memory,
                text,
            )
            &&& byte_len(text) > 8000 ==> outcome is Err
        }),
{
    lemma_shown(
        ContextItem::MemorySlot(MemorySlot::Summary { owner_node, body }),
        source,
        history,
        node_prompt,
    );
    let inner = crate::fragments::memory_body(owner_node@, body@);
    byte_limit_holds("memory"@, "<spine_memory"@, inner, "</spine_memory>"@);
    assert("<spine_memory"@ + (" node_id=\""@ + owner_node@ + "\">\n"@) + body@ + "\n"@
        + "</spine_memory>"@ =~= "<spine_memory"@ + inner + "</spine_memory>"@);
}

/// What a spawned branch reported is shown as from the user, under its node's
/// number: its task, its outcome, its diagnostic and its execution.
pub proof fn evidence_is_shown_whole(
    source: Seq<Numbered>,
    history: Option<Seq<HistoryModel>>,
    node_prompt: Seq<char>,
    slot: MemorySlot,
)
    requires
        slot is SpawnEvidence,
    ensures
        slot matches MemorySlot::SpawnEvidence {
            owner_node,
            task,
            outcome,
            diagnostic,
            execution_ref,
        } ==> {
            let members = seq![
                ("summary"@, Some(task.summary@)),
                ("prompt"@, Some(task.prompt@)),
                (
                    "outcome"@,
                    Some(
                        match outcome {
                            crate::fragments::SpawnOutcome::Completed => "completed"@,
                            crate::fragments::SpawnOutcome::Errored => "errored"@,
                            crate::fragments::SpawnOutcome::Aborted => "aborted"@,
                        },
                    ),
                ),
                ("diagnostic"@, text_view(diagnostic)),
                ("execution_ref"@, text_view(execution_ref)),
            ];
            let result = shown(ContextItem::MemorySlot(slot), source, history, node_prompt);
            match object_json(members) {
                Err(_) => result is Err,
                Ok(json) => {
                    let text = "<spine_spawn_evidence"@ + (" node_id=\""@ + owner_node@ + "\">\n"@)
                        + json + "\n"@ + "</spine_spawn_evidence>"@;
                    &&& byte_len(text) <= 8000 ==> is_tagged(
                        result,
                        "user"@,
                        ContentItemKind::SpawnEvidence,
                        text,
                    )
                    &&& byte_len(text) > 8000 ==> result is Err
                },
            }
        },
{
    lemma_shown(ContextItem::MemorySlot(slot), source, history, node_prompt);
    if let MemorySlot::SpawnEvidence { owner_node, task, outcome, diagnostic, execution_ref }
        = slot {
        let members = evidence_members(
            task.summary@,
            task.prompt@,
            crate::fragments::outcome_text(outcome),
            text_view(diagnostic),
            text_view(execution_ref),
        );
        if let Ok(json) = object_json(members) {
            let inner = crate::fragments::memory_body(owner_node@, json);
            byte_limit_holds(
                "spawn evidence"@,
                "<spine_spawn_evidence"@,
                inner,
                "</spine_spawn_evidence>"@,
            );
            assert("<spine_spawn_evidence"@ + (" node_id=\""@ + owner_node@ + "\">\n"@) + json
                + "\n"@ + "</spine_spawn_evidence>"@ =~= "<spine_spawn_evidence"@ + inner
                + "</spine_spawn_evidence>"@);
        }
    }
}

/// A message that the user sent is remembered as it was sent, under its anchor;
/// anything else at its place is refused.
pub proof fn a_user_message_is_remembered(
    source: Seq<Numbered>,
    history: Option<Seq<HistoryModel>>,
    node_prompt: Seq<char>,
    owner_node: String,
    boundary: u64,
    anchor: u64,
)
    ensures
        ({
            let result = shown(
                ContextItem::MemorySlot(MemorySlot::User { owner_node, boundary, anchor }),
                source,
                history,
                node_prompt,
            );
            match item_at(source, boundary, history) {
                Some(item) => if item.body matches HistoryBodyModel::Message { role, .. } && role
                    == "user"@ {
                    result == Ok::<Seq<HistoryModel>, Seq<char>>(seq![anchored(item, anchor)])
                } else {
                    result is Err
                },
                None => result is Err,
            }
        }),
{
    lemma_shown(
        ContextItem::MemorySlot(MemorySlot::User { owner_node, boundary, anchor }),
        source,
        history,
        node_prompt,
    );
}

} // verus!

//! Laws of the rollout redactor, over the steps that its contracts name.

use vstd::prelude::*;

verus! {

use crate::debug_record::{DebugToolKind, RecordModel};
use crate::json::{field_of, json_value, text_of, Json};
use crate::redactor::{
    agents_step, arguments_step, dense, fresh, id_step, ids_in, item_step, items_step,
    lemma_dense_insert, lemma_sums_empty, lemma_sums_insert, line_step, opt_id_step, output_step,
    receipt_step, record_step, redactor_inv, remember_step, result_step, results_step, scan_step,
    table_of, take_call_step, DebugCallState, IdNamespace, RedactorLimits, RedactorModel,
    RolloutDebugRedactorError, SpineCarriers, NAMESPACES,
};
use crate::rollout::{JsonScan, ResponseItem, RolloutItem, ToolOutput, ToolText};
use crate::shapes::{elements, event_kind_text, event_shape, text_view, tool_kind};

/// How a redactor's state may change: identifiers keep their local numbers, a
/// latched failure stays, what was charged to the package stays charged, and
/// the limits and carriers are fixed.
pub open spec fn grows(s: RedactorModel, t: RedactorModel) -> bool {
    &&& t.limits == s.limits
    &&& t.carriers == s.carriers
    &&& t.ids.len() == s.ids.len()
    &&& forall|n: int, k: Seq<char>|
        0 <= n < s.ids.len() && #[trigger] s.ids[n].contains_key(k) ==> t.ids[n].contains_key(k)
            && t.ids[n][k] == s.ids[n][k]
    &&& s.failure is Some ==> t.failure == s.failure
    &&& s.package_json_nodes <= t.package_json_nodes
    &&& s.tracked_id_entries <= t.tracked_id_entries
    &&& s.tracked_id_bytes <= t.tracked_id_bytes
}

/// A state that keeps the invariant and has grown out of `s`.
pub open spec fn sound_growth(s: RedactorModel, t: RedactorModel) -> bool {
    redactor_inv(t) && grows(s, t)
}

pub(crate) proof fn lemma_trans(a: RedactorModel, b: RedactorModel, c: RedactorModel)
    requires
        grows(a, b),
        sound_growth(b, c),
    ensures
        sound_growth(a, c),
{
}

pub(crate) proof fn lemma_fresh(limits: RedactorLimits, carriers: SpineCarriers)
    ensures
        redactor_inv(fresh(limits, carriers)),
{
    let s = fresh(limits, carriers);
    lemma_sums_empty(s.ids);
    assert forall|n: int| 0 <= n < s.ids.len() implies dense(#[trigger] s.ids[n])
        && s.ids[n].len() <= s.tracked_id_entries by {
        assert(s.ids[n] == Map::<Seq<char>, u64>::empty());
    }
}

pub(crate) proof fn lemma_id(s: RedactorModel, namespace: IdNamespace, value: Seq<char>)
    requires
        redactor_inv(s),
    ensures
        sound_growth(s, id_step(s, namespace, value).0),
{
    let t = id_step(s, namespace, value).0;
    let table = ids_in(s, namespace);
    let at = table_of(namespace);
    assert(dense(s.ids[at]));
    if t.ids != s.ids {
        let id = table.len() as u64;
        assert(id == table.len());
        lemma_dense_insert(table, value, id);
        lemma_sums_insert(s.ids, at, value, id);
        assert forall|n: int| 0 <= n < NAMESPACES implies dense(#[trigger] t.ids[n])
            && t.ids[n].len() <= t.tracked_id_entries by {
            assert(dense(s.ids[n]));
        }
    }
}

pub(crate) proof fn lemma_opt(s: RedactorModel, namespace: IdNamespace, value: Option<Seq<char>>)
    requires
        redactor_inv(s),
    ensures
        sound_growth(s, opt_id_step(s, namespace, value).0),
{
    if let Some(value) = value {
        lemma_id(s, namespace, value);
    }
}

pub(crate) proof fn lemma_scan(s: RedactorModel, scan: JsonScan)
    requires
        redactor_inv(s),
    ensures
        sound_growth(s, scan_step(s, scan).0),
{
}

pub(crate) proof fn lemma_remember(s: RedactorModel, call_id: u64, tool: DebugToolKind, arguments: ToolText)
    requires
        redactor_inv(s),
    ensures
        sound_growth(s, remember_step(s, call_id, tool, arguments)),
{
}

pub(crate) proof fn lemma_take(s: RedactorModel, call_id: Option<u64>)
    requires
        redactor_inv(s),
    ensures
        sound_growth(s, take_call_step(s, call_id).0),
{
    if let Some(id) = call_id {
        if !s.calls.contains_key(id) {
            assert(s.calls.remove(id) =~= s.calls);
        }
    }
}

pub(crate) proof fn lemma_arguments(s: RedactorModel, tool: DebugToolKind, arguments: ToolText)
    requires
        redactor_inv(s),
    ensures
        sound_growth(s, arguments_step(s, tool, arguments).0),
{
    lemma_scan(s, arguments.scan);
}

proof fn lemma_result(s: RedactorModel, item: Json)
    requires
        redactor_inv(s),
    ensures
        sound_growth(s, result_step(s, item).0),
{
    let reference = field_of(Some(item), "execution_ref"@);
    if let Some(text) = text_of(reference) {
        lemma_id(s, IdNamespace::Execution, text);
    }
}

proof fn lemma_results(s: RedactorModel, items: Seq<Json>)
    requires
        redactor_inv(s),
    ensures
        sound_growth(s, results_step(s, items).0),
    decreases items.len(),
{
    if items.len() > 0 {
        lemma_results(s, items.drop_last());
        let before = results_step(s, items.drop_last()).0;
        lemma_result(before, items.last());
        lemma_trans(s, before, result_step(before, items.last()).0);
    }
}

proof fn lemma_receipt(
    s: RedactorModel,
    raw_output: Option<Json>,
    output: ToolOutput,
    request: Option<usize>,
)
    requires
        redactor_inv(s),
    ensures
        sound_growth(s, receipt_step(s, raw_output, output, request).0),
{
    lemma_scan(s, output.scan);
    let scanned = match raw_output {
        Some(Json::Text(text)) => scan_step(s, output.scan),
        _ => (s, true),
    };
    let parsed = match raw_output {
        Some(Json::Text(text)) => if scanned.1 {
            json_value(vstd::utf8::encode_utf8(text@))
        } else {
            None
        },
        _ => raw_output,
    };
    let items = elements(field_of(parsed, "results"@));
    lemma_results(scanned.0, items);
    lemma_trans(s, scanned.0, results_step(scanned.0, items).0);
}

pub(crate) proof fn lemma_output(
    s: RedactorModel,
    state: Option<DebugCallState>,
    output: ToolOutput,
    raw_output: Option<Json>,
)
    requires
        redactor_inv(s),
    ensures
        sound_growth(s, output_step(s, state, output, raw_output).0),
{
    if let Some(call) = state {
        lemma_receipt(s, raw_output, output, call.spawn_request);
    }
}

proof fn lemma_two(
    s: RedactorModel,
    n1: IdNamespace,
    v1: Option<Seq<char>>,
    n2: IdNamespace,
    v2: Option<Seq<char>>,
)
    requires
        redactor_inv(s),
    ensures
        sound_growth(s, opt_id_step(opt_id_step(s, n1, v1).0, n2, v2).0),
{
    let a = opt_id_step(s, n1, v1).0;
    lemma_opt(s, n1, v1);
    lemma_opt(a, n2, v2);
    lemma_trans(s, a, opt_id_step(a, n2, v2).0);
}

proof fn lemma_three(
    s: RedactorModel,
    n1: IdNamespace,
    v1: Option<Seq<char>>,
    n2: IdNamespace,
    v2: Option<Seq<char>>,
    n3: IdNamespace,
    v3: Option<Seq<char>>,
)
    requires
        redactor_inv(s),
    ensures
        sound_growth(
            s,
            opt_id_step(opt_id_step(opt_id_step(s, n1, v1).0, n2, v2).0, n3, v3).0,
        ),
{
    let a = opt_id_step(s, n1, v1).0;
    lemma_opt(s, n1, v1);
    lemma_two(a, n2, v2, n3, v3);
    lemma_trans(s, a, opt_id_step(opt_id_step(a, n2, v2).0, n3, v3).0);
}

proof fn lemma_call(
    s: RedactorModel,
    tool: DebugToolKind,
    arguments: ToolText,
    call_id: Seq<char>,
    id: Option<Seq<char>>,
    turn_id: Option<Seq<char>>,
)
    requires
        redactor_inv(s),
    ensures
        ({
            let a = arguments_step(s, tool, arguments);
            let b = id_step(a.0, IdNamespace::Call, call_id);
            let c = remember_step(b.0, b.1, tool, arguments);
            let d = opt_id_step(c, IdNamespace::Item, id);
            sound_growth(s, opt_id_step(d.0, IdNamespace::Turn, turn_id).0)
        }),
{
    let a = arguments_step(s, tool, arguments);
    let b = id_step(a.0, IdNamespace::Call, call_id);
    let c = remember_step(b.0, b.1, tool, arguments);
    let d = opt_id_step(c, IdNamespace::Item, id);
    let e = opt_id_step(d.0, IdNamespace::Turn, turn_id);
    lemma_arguments(s, tool, arguments);
    lemma_id(a.0, IdNamespace::Call, call_id);
    lemma_trans(s, a.0, b.0);
    lemma_remember(b.0, b.1, tool, arguments);
    lemma_trans(s, b.0, c);
    lemma_two(c, IdNamespace::Item, id, IdNamespace::Turn, turn_id);
    lemma_trans(s, c, e.0);
}

proof fn lemma_answer(
    s: RedactorModel,
    call_id: Option<u64>,
    output: ToolOutput,
    raw_output: Option<Json>,
    id: Option<Seq<char>>,
    turn_id: Option<Seq<char>>,
)
    requires
        redactor_inv(s),
    ensures
        ({
            let b = take_call_step(s, call_id);
            let c = output_step(b.0, b.1, output, raw_output);
            let d = opt_id_step(c.0, IdNamespace::Item, id);
            sound_growth(s, opt_id_step(d.0, IdNamespace::Turn, turn_id).0)
        }),
{
    let b = take_call_step(s, call_id);
    let c = output_step(b.0, b.1, output, raw_output);
    let d = opt_id_step(c.0, IdNamespace::Item, id);
    let e = opt_id_step(d.0, IdNamespace::Turn, turn_id);
    lemma_take(s, call_id);
    lemma_output(b.0, b.1, output, raw_output);
    lemma_trans(s, b.0, c.0);
    lemma_two(c.0, IdNamespace::Item, id, IdNamespace::Turn, turn_id);
    lemma_trans(s, c.0, e.0);
}

#[verifier::rlimit(60)]
#[verifier::spinoff_prover]
pub(crate) proof fn lemma_item(s: RedactorModel, item: ResponseItem, raw: Option<Json>)
    requires
        redactor_inv(s),
    ensures
        sound_growth(s, item_step(s, item, raw).0),
{
    match item {
        ResponseItem::AdditionalTools { id, .. } => {
            lemma_opt(s, IdNamespace::Item, text_view(id));
        },
        ResponseItem::Message { id, turn_id, .. } => {
            lemma_two(s, IdNamespace::Item, text_view(id), IdNamespace::Turn, text_view(turn_id));
        },
        ResponseItem::AgentMessage { id, turn_id, .. } => {
            lemma_two(s, IdNamespace::Item, text_view(id), IdNamespace::Turn, text_view(turn_id));
        },
        ResponseItem::Reasoning { id, turn_id, .. } => {
            lemma_two(s, IdNamespace::Item, text_view(id), IdNamespace::Turn, text_view(turn_id));
        },
        ResponseItem::LocalShellCall { id, call_id, turn_id, .. } => {
            lemma_three(
                s,
                IdNamespace::Item,
                text_view(id),
                IdNamespace::Call,
                text_view(call_id),
                IdNamespace::Turn,
                text_view(turn_id),
            );
        },
        ResponseItem::FunctionCall {
            id,
            name,
            namespace,
            code_mode,
            arguments,
            call_id,
            turn_id,
        } => {
            let tool = tool_kind(text_view(namespace), name@, code_mode);
            lemma_call(s, tool, arguments, call_id@, text_view(id), text_view(turn_id));
        },
        ResponseItem::ToolSearchCall { id, call_id, turn_id, .. } => {
            lemma_three(
                s,
                IdNamespace::Item,
                text_view(id),
                IdNamespace::Call,
                text_view(call_id),
                IdNamespace::Turn,
                text_view(turn_id),
            );
        },
        ResponseItem::FunctionCallOutput { id, call_id, output, turn_id } => {
            let a = opt_id_step(s, IdNamespace::Call, text_view(call_id));
            lemma_opt(s, IdNamespace::Call, text_view(call_id));
            lemma_answer(
                a.0,
                a.1,
                output,
                field_of(raw, "output"@),
                text_view(id),
                text_view(turn_id),
            );
            lemma_trans(s, a.0, item_step(s, item, raw).0);
        },
        ResponseItem::CustomToolCall {
            id,
            call_id,
            name,
            namespace,
            code_mode,
            input,
            turn_id,
            ..
        } => {
            let tool = tool_kind(text_view(namespace), name@, code_mode);
            lemma_call(s, tool, input, call_id@, text_view(id), text_view(turn_id));
        },
        ResponseItem::CustomToolCallOutput { id, call_id, output, turn_id, .. } => {
            let a = id_step(s, IdNamespace::Call, call_id@);
            lemma_id(s, IdNamespace::Call, call_id@);
            lemma_answer(
                a.0,
                Some(a.1),
                output,
                field_of(raw, "output"@),
                text_view(id),
                text_view(turn_id),
            );
            lemma_trans(s, a.0, item_step(s, item, raw).0);
        },
        ResponseItem::ToolSearchOutput { id, call_id, turn_id, .. } => {
            lemma_three(
                s,
                IdNamespace::Item,
                text_view(id),
                IdNamespace::Call,
                text_view(call_id),
                IdNamespace::Turn,
                text_view(turn_id),
            );
        },
        ResponseItem::WebSearchCall { id, turn_id, .. } => {
            lemma_two(s, IdNamespace::Item, text_view(id), IdNamespace::Turn, text_view(turn_id));
        },
        ResponseItem::ImageGenerationCall { id, turn_id, .. } => {
            lemma_two(s, IdNamespace::Item, text_view(id), IdNamespace::Turn, text_view(turn_id));
        },
        ResponseItem::Compaction { id, turn_id } => {
            lemma_two(s, IdNamespace::Item, text_view(id), IdNamespace::Turn, text_view(turn_id));
        },
        ResponseItem::CompactionTrigger => {},
        ResponseItem::ContextCompaction { id, turn_id, .. } => {
            lemma_two(s, IdNamespace::Item, text_view(id), IdNamespace::Turn, text_view(turn_id));
        },
        ResponseItem::Other => {},
    }
}

#[verifier::rlimit(40)]
#[verifier::spinoff_prover]
pub(crate) proof fn lemma_items(s: RedactorModel, items: Seq<ResponseItem>, raws: Seq<Json>)
    requires
        redactor_inv(s),
    ensures
        sound_growth(s, items_step(s, items, raws).0),
    decreases items.len(),
{
    if items.len() > 0 {
        lemma_items(s, items.drop_last(), raws);
        let before = items_step(s, items.drop_last(), raws).0;
        let at = items.len() - 1;
        let raw = if at < raws.len() {
            Some(raws[at])
        } else {
            None
        };
        lemma_item(before, items.last(), raw);
        lemma_trans(s, before, item_step(before, items.last(), raw).0);
    }
}

pub(crate) proof fn lemma_agents(s: RedactorModel, agents: Seq<String>)
    requires
        redactor_inv(s),
    ensures
        sound_growth(s, agents_step(s, agents).0),
    decreases agents.len(),
{
    if agents.len() > 0 {
        lemma_agents(s, agents.drop_last());
        let before = agents_step(s, agents.drop_last()).0;
        lemma_id(before, IdNamespace::Agent, agents.last()@);
        lemma_trans(s, before, id_step(before, IdNamespace::Agent, agents.last()@).0);
    }
}

#[verifier::rlimit(60)]
#[verifier::spinoff_prover]
pub(crate) proof fn lemma_record(s: RedactorModel, item: RolloutItem, raw: Option<Json>)
    requires
        redactor_inv(s),
    ensures
        sound_growth(s, record_step(s, item, raw).0),
{
    match item {
        RolloutItem::SessionMeta {
            session_id,
            thread_id,
            forked_from_id,
            parent_thread_id,
            context_window_id,
            ..
        } => {
            let a = id_step(s, IdNamespace::Session, session_id@);
            let b = id_step(a.0, IdNamespace::Thread, thread_id@);
            lemma_id(s, IdNamespace::Session, session_id@);
            lemma_id(a.0, IdNamespace::Thread, thread_id@);
            lemma_trans(s, a.0, b.0);
            lemma_three(
                b.0,
                IdNamespace::Thread,
                text_view(forked_from_id),
                IdNamespace::Thread,
                text_view(parent_thread_id),
                IdNamespace::Window,
                text_view(context_window_id),
            );
            lemma_trans(s, b.0, record_step(s, item, raw).0);
        },
        RolloutItem::ResponseItem(response) => {
            lemma_item(s, response, raw);
        },
        RolloutItem::InterAgentCommunication {
            id,
            author,
            recipient,
            other_recipients,
            turn_id,
            ..
        } => {
            let a = opt_id_step(s, IdNamespace::Item, text_view(id));
            let b = id_step(a.0, IdNamespace::Agent, author@);
            let c = id_step(b.0, IdNamespace::Agent, recipient@);
            let d = agents_step(c.0, other_recipients@);
            lemma_opt(s, IdNamespace::Item, text_view(id));
            lemma_id(a.0, IdNamespace::Agent, author@);
            lemma_trans(s, a.0, b.0);
            lemma_id(b.0, IdNamespace::Agent, recipient@);
            lemma_trans(s, b.0, c.0);
            lemma_agents(c.0, other_recipients@);
            lemma_trans(s, c.0, d.0);
            lemma_opt(d.0, IdNamespace::Turn, text_view(turn_id));
            lemma_trans(s, d.0, record_step(s, item, raw).0);
        },
        RolloutItem::Compacted {
            replacement_history,
            first_window_id,
            previous_window_id,
            window_id,
            ..
        } => {
            let raws = elements(field_of(raw, "replacement_history"@));
            let a = match replacement_history {
                Some(items) => items_step(s, items@, raws).0,
                None => s,
            };
            if let Some(items) = replacement_history {
                lemma_items(s, items@, raws);
            }
            lemma_three(
                a,
                IdNamespace::Window,
                text_view(first_window_id),
                IdNamespace::Window,
                text_view(previous_window_id),
                IdNamespace::Window,
                text_view(window_id),
            );
            lemma_trans(s, a, record_step(s, item, raw).0);
        },
        RolloutItem::TurnContext { turn_id, .. } => {
            lemma_opt(s, IdNamespace::Turn, text_view(turn_id));
        },
        _ => {},
    }
}

/// Whatever line is redacted, in whatever state: every bound and the dense
/// numbering still hold afterwards, every identifier keeps the local number it
/// had, and a latched failure is still the same failure.
pub proof fn a_line_keeps_numbers_and_bounds(
    s: RedactorModel,
    line: Seq<u8>,
    scan: JsonScan,
    decoded: Option<RolloutItem>,
)
    requires
        redactor_inv(s),
    ensures
        redactor_inv(line_step(s, line, scan, decoded).0),
        grows(s, line_step(s, line, scan, decoded).0),
{
    let begun = RedactorModel { record_json_nodes: 0, ..s };
    let scanned = scan_step(begun, scan);
    lemma_scan(begun, scan);
    lemma_trans(s, begun, scanned.0);
    if scanned.1 {
        if let Some(raw) = json_value(line) {
            if let Some(item) = decoded {
                let payload = field_of(Some(raw), "payload"@);
                lemma_record(scanned.0, item, payload);
                lemma_trans(s, scanned.0, record_step(scanned.0, item, payload).0);
            }
        }
    }
}

/// A diagnostic record carries no text of its source: the only text in any
/// record is an event's wire name, which depends on the kind of the event alone.
pub proof fn the_only_text_is_an_event_name(
    s: RedactorModel,
    line: Seq<u8>,
    scan: JsonScan,
    decoded: Option<RolloutItem>,
)
    ensures
        match line_step(s, line, scan, decoded).1 {
            RecordModel::Event { event } => decoded matches Some(RolloutItem::EventMsg(source))
                && event == event_shape(source) && event.kind == event_kind_text(source),
            RecordModel::Plain(record) => !(record is Event),
            _ => true,
        },
{
}

/// An identifier that was numbered keeps its number whatever line comes next.
pub proof fn local_numbers_are_stable(
    s: RedactorModel,
    line: Seq<u8>,
    scan: JsonScan,
    decoded: Option<RolloutItem>,
    namespace: IdNamespace,
    value: Seq<char>,
)
    requires
        redactor_inv(s),
        ids_in(s, namespace).contains_key(value),
    ensures
        id_step(line_step(s, line, scan, decoded).0, namespace, value).1 == id_step(
            s,
            namespace,
            value,
        ).1,
{
    a_line_keeps_numbers_and_bounds(s, line, scan, decoded);
    assert(s.ids[table_of(namespace)].contains_key(value));
}

/// Within the limits, two identifiers of one namespace get the same local
/// number exactly where they are the same identifier.
pub proof fn local_numbers_identify(
    s: RedactorModel,
    namespace: IdNamespace,
    first: Seq<char>,
    second: Seq<char>,
)
    requires
        redactor_inv(s),
    ensures
        ({
            let a = id_step(s, namespace, first);
            let b = id_step(a.0, namespace, second);
            b.0.failure is None ==> (a.1 == b.1 <==> first == second)
        }),
{
    let a = id_step(s, namespace, first);
    let b = id_step(a.0, namespace, second);
    lemma_id(s, namespace, first);
    lemma_id(a.0, namespace, second);
    if b.0.failure is None {
        let table = ids_in(b.0, namespace);
        let at = table_of(namespace);
        assert(dense(b.0.ids[at]));
        assert(ids_in(a.0, namespace).contains_key(first));
        assert(a.0.ids[at].contains_key(first));
        assert(table.contains_key(first) && table[first] == a.1);
        assert(table.contains_key(second) && table[second] == b.1);
    }
}

/// Equal identifiers in different namespaces are numbered apart: mapping in
/// one namespace leaves the others alone.
pub proof fn namespaces_are_numbered_apart(
    s: RedactorModel,
    namespace: IdNamespace,
    other: IdNamespace,
    value: Seq<char>,
)
    requires
        redactor_inv(s),
        namespace != other,
    ensures
        ids_in(id_step(s, namespace, value).0, other) == ids_in(s, other),
{
}

/// A call that is still outstanding cannot be announced again: the second
/// announcement latches the ambiguity.
pub proof fn a_repeated_call_is_ambiguous(
    s: RedactorModel,
    call_id: u64,
    first: DebugToolKind,
    second: DebugToolKind,
    arguments: ToolText,
    again: ToolText,
)
    requires
        redactor_inv(s),
        s.failure is None,
        !s.calls.contains_key(call_id),
        s.calls.len() < s.limits.max_pending_calls,
    ensures
        ({
            let once = remember_step(s, call_id, first, arguments);
            remember_step(once, call_id, second, again).failure == Some(
                RolloutDebugRedactorError::AmbiguousCallId,
            )
        }),
{
}

/// An output takes the call that it answers: a second output for the same call
/// finds none.
pub proof fn a_call_is_answered_once(s: RedactorModel, call_id: u64)
    ensures
        take_call_step(take_call_step(s, Some(call_id)).0, Some(call_id)).1 is None,
{
}

} // verus!

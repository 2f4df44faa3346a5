//! What a diagnostic record keeps of its source.

use vstd::prelude::*;

verus! {

use crate::debug_record::{
    ArgumentsModel, DebugJsonValueShape, DebugObjectState, DebugOutputName, DebugPlaceholderScope,
    DebugResponseItem, DebugRolloutRecord, DebugStringShape, DebugToolArguments, DebugToolKind,
    ItemModel, OutputModel, RecordModel,
};
use crate::json::{field_of, json_value, text_of, unknown_fields, Json};
use crate::redactor::{
    agents_step, arguments_step, id_step, ids_in, item_step, items_step, opt_id_step, outcome_step,
    output_step, receipt_step, record_step, redactor_inv, remember_step, result_step, results_step,
    scan_step, take_call_step, value_step, IdNamespace, RedactorModel, RolloutDebugRedactorError,
    SpineCarriers,
};
use crate::redactor_laws::{
    grows, lemma_agents, lemma_arguments, lemma_id, lemma_items, lemma_opt, lemma_output,
    lemma_remember, lemma_take, lemma_trans, sound_growth,
};
use crate::rollout::{EventMsg, JsonScan, OutputBody, ResponseItem, RolloutItem, ToolOutput, ToolText};
use crate::shape_laws::{item_types, items_declare_their_types, lines_declare_their_types,
    rollout_types};
use crate::shapes::{
    agent_content_kinds, collection_shape, content_kinds, elements, event_shape, known_event_type,
    message_role, number_shape, object_state, optional_phase, optional_web_action, outcome_shape,
    output_body, reasoning_content_kinds, schema_text_shape, shell_status, task_shapes, text_shape,
    text_view, tool_kind, value_shape,
};
use crate::spawn_tasks::request_size;
use vstd::utf8::encode_utf8;

/// Whether a redactor knows an identifier by a number; an absent one has none.
pub open spec fn known_as(
    t: RedactorModel,
    namespace: IdNamespace,
    value: Option<Seq<char>>,
    number: Option<u64>,
) -> bool {
    match value {
        Some(value) => ids_in(t, namespace).contains_key(value) && number == Some(
            ids_in(t, namespace)[value],
        ),
        None => number is None,
    }
}

proof fn lemma_known(s: RedactorModel, namespace: IdNamespace, value: Seq<char>, t: RedactorModel)
    requires
        redactor_inv(s),
        grows(id_step(s, namespace, value).0, t),
        t.failure is None,
    ensures
        known_as(t, namespace, Some(value), Some(id_step(s, namespace, value).1)),
{
    lemma_id(s, namespace, value);
    let a = id_step(s, namespace, value).0;
    assert(a.failure is None);
    assert(ids_in(a, namespace).contains_key(value));
    let at = crate::redactor::table_of(namespace);
    assert(a.ids[at].contains_key(value));
}

proof fn lemma_known_opt(
    s: RedactorModel,
    namespace: IdNamespace,
    value: Option<Seq<char>>,
    t: RedactorModel,
)
    requires
        redactor_inv(s),
        grows(opt_id_step(s, namespace, value).0, t),
        t.failure is None,
    ensures
        known_as(t, namespace, value, opt_id_step(s, namespace, value).1),
{
    if let Some(value) = value {
        lemma_known(s, namespace, value, t);
    }
}

proof fn lemma_two_known(
    s: RedactorModel,
    n1: IdNamespace,
    v1: Option<Seq<char>>,
    n2: IdNamespace,
    v2: Option<Seq<char>>,
)
    requires
        redactor_inv(s),
    ensures
        ({
            let a = opt_id_step(s, n1, v1);
            let b = opt_id_step(a.0, n2, v2);
            &&& b.0.failure is None ==> known_as(b.0, n1, v1, a.1) && known_as(b.0, n2, v2, b.1)
            &&& sound_growth(s, b.0)
            &&& b.0.calls == s.calls
        }),
{
    let a = opt_id_step(s, n1, v1);
    let b = opt_id_step(a.0, n2, v2);
    lemma_opt(s, n1, v1);
    lemma_opt(a.0, n2, v2);
    lemma_trans(s, a.0, b.0);
    if b.0.failure is None {
        lemma_known_opt(s, n1, v1, b.0);
        lemma_known_opt(a.0, n2, v2, b.0);
    }
}

proof fn lemma_three_known(
    s: RedactorModel,
    n1: IdNamespace,
    v1: Option<Seq<char>>,
    n2: IdNamespace,
    v2: Option<Seq<char>>,
    n3: IdNamespace,
    v3: Option<Seq<char>>,
)
    requires
        redactor_inv(s),
    ensures
        ({
            let a = opt_id_step(s, n1, v1);
            let b = opt_id_step(a.0, n2, v2);
            let c = opt_id_step(b.0, n3, v3);
            &&& c.0.failure is None ==> known_as(c.0, n1, v1, a.1) && known_as(c.0, n2, v2, b.1)
                && known_as(c.0, n3, v3, c.1)
            &&& sound_growth(s, c.0)
        }),
{
    let a = opt_id_step(s, n1, v1);
    lemma_opt(s, n1, v1);
    lemma_two_known(a.0, n2, v2, n3, v3);
    let b = opt_id_step(a.0, n2, v2);
    let c = opt_id_step(b.0, n3, v3);
    lemma_trans(s, a.0, c.0);
    if c.0.failure is None {
        lemma_known_opt(s, n1, v1, c.0);
    }
}

/// Within the limits, a message keeps who it is from, its phase and the kind of
/// each piece; so do messages between agents and reasoning. Identifiers are kept
/// as their numbers.
pub proof fn messages_are_kept(s: RedactorModel, item: ResponseItem, raw: Option<Json>)
    requires
        redactor_inv(s),
        item_step(s, item, raw).0.failure is None,
        item is Message || item is AgentMessage || item is Reasoning,
    ensures
        ({
            let (t, kept) = item_step(s, item, raw);
            match (item, kept) {
                (
                    ResponseItem::Message { id, role, content, phase, turn_id },
                    ItemModel::Message { id: i, role: r, phase: p, content: c, turn_id: u },
                ) => r == message_role(role@) && p == optional_phase(phase) && c == content_kinds(
                    content@,
                ) && known_as(t, IdNamespace::Item, text_view(id), i) && known_as(
                    t,
                    IdNamespace::Turn,
                    text_view(turn_id),
                    u,
                ),
                (
                    ResponseItem::AgentMessage { id, content, turn_id },
                    ItemModel::AgentMessage { id: i, content: c, turn_id: u },
                ) => c == agent_content_kinds(content@) && known_as(
                    t,
                    IdNamespace::Item,
                    text_view(id),
                    i,
                ) && known_as(t, IdNamespace::Turn, text_view(turn_id), u),
                (
                    ResponseItem::Reasoning { id, summary_count, content, encrypted, turn_id },
                    ItemModel::Reasoning {
                        id: i,
                        summary_count: n,
                        content: c,
                        encrypted: e,
                        turn_id: u,
                    },
                ) => n == summary_count && e == encrypted && c == (match content {
                    Some(items) => Some(reasoning_content_kinds(items@)),
                    None => None,
                }) && known_as(t, IdNamespace::Item, text_view(id), i) && known_as(
                    t,
                    IdNamespace::Turn,
                    text_view(turn_id),
                    u,
                ),
                _ => false,
            }
        }),
{
    let (id, turn_id) = match item {
        ResponseItem::Message { id, turn_id, .. } => (id, turn_id),
        ResponseItem::AgentMessage { id, turn_id, .. } => (id, turn_id),
        ResponseItem::Reasoning { id, turn_id, .. } => (id, turn_id),
        _ => arbitrary(),
    };
    lemma_two_known(s, IdNamespace::Item, text_view(id), IdNamespace::Turn, text_view(turn_id));
}

/// Within the limits, a call of the shell, of a tool search and its output keep
/// their counts and what was present.
pub proof fn shell_and_search_calls_are_kept(
    s: RedactorModel,
    item: ResponseItem,
    raw: Option<Json>,
)
    requires
        redactor_inv(s),
        item_step(s, item, raw).0.failure is None,
        item is LocalShellCall || item is ToolSearchCall || item is ToolSearchOutput,
    ensures
        ({
            let (t, kept) = item_step(s, item, raw);
            match (item, kept) {
                (
                    ResponseItem::LocalShellCall {
                        id,
                        call_id,
                        status,
                        command_part_count,
                        timeout_present,
                        working_directory_present,
                        environment_entry_count,
                        user_present,
                        turn_id,
                    },
                    ItemModel::Plain(
                        DebugResponseItem::LocalShellCall {
                            id: i,
                            call_id: c,
                            status: st,
                            command_part_count: n,
                            timeout_present: to,
                            working_directory_present: wd,
                            environment_entry_count: en,
                            user_present: up,
                            turn_id: u,
                        },
                    ),
                ) => st == shell_status(status) && n == command_part_count && to == timeout_present
                    && wd == working_directory_present && en == environment_entry_count && up
                    == user_present && known_as(t, IdNamespace::Item, text_view(id), i) && known_as(
                    t,
                    IdNamespace::Call,
                    text_view(call_id),
                    c,
                ) && known_as(t, IdNamespace::Turn, text_view(turn_id), u),
                (
                    ResponseItem::ToolSearchCall { id, call_id, status_present, arguments, turn_id },
                    ItemModel::Plain(
                        DebugResponseItem::ToolSearchCall {
                            id: i,
                            call_id: c,
                            status_present: st,
                            arguments: a,
                            turn_id: u,
                        },
                    ),
                ) => st == status_present && a == value_shape(arguments) && known_as(
                    t,
                    IdNamespace::Item,
                    text_view(id),
                    i,
                ) && known_as(t, IdNamespace::Call, text_view(call_id), c) && known_as(
                    t,
                    IdNamespace::Turn,
                    text_view(turn_id),
                    u,
                ),
                (
                    ResponseItem::ToolSearchOutput { id, call_id, tool_count, turn_id },
                    ItemModel::Plain(
                        DebugResponseItem::ToolSearchOutput {
                            id: i,
                            call_id: c,
                            tool_count: n,
                            turn_id: u,
                        },
                    ),
                ) => n == tool_count && known_as(t, IdNamespace::Item, text_view(id), i)
                    && known_as(t, IdNamespace::Call, text_view(call_id), c) && known_as(
                    t,
                    IdNamespace::Turn,
                    text_view(turn_id),
                    u,
                ),
                _ => false,
            }
        }),
{
    let (id, call_id, turn_id) = match item {
        ResponseItem::LocalShellCall { id, call_id, turn_id, .. } => (id, call_id, turn_id),
        ResponseItem::ToolSearchCall { id, call_id, turn_id, .. } => (id, call_id, turn_id),
        ResponseItem::ToolSearchOutput { id, call_id, turn_id, .. } => (id, call_id, turn_id),
        _ => arbitrary(),
    };
    lemma_three_known(
        s,
        IdNamespace::Item,
        text_view(id),
        IdNamespace::Call,
        text_view(call_id),
        IdNamespace::Turn,
        text_view(turn_id),
    );
}

/// Within the limits, the remaining items keep their counts and what was
/// present.
pub proof fn plain_items_are_kept(s: RedactorModel, item: ResponseItem, raw: Option<Json>)
    requires
        redactor_inv(s),
        item_step(s, item, raw).0.failure is None,
    ensures
        ({
            let (t, kept) = item_step(s, item, raw);
            &&& item matches ResponseItem::AdditionalTools { id, tool_count } ==> (kept matches
                ItemModel::Plain(DebugResponseItem::AdditionalTools { id: i, tool_count: n }) && n
                == tool_count && known_as(t, IdNamespace::Item, text_view(id), i))
            &&& item matches ResponseItem::WebSearchCall { id, status_present, action, turn_id }
                ==> (kept matches ItemModel::Plain(
                DebugResponseItem::WebSearchCall {
                    id: i,
                    status_present: st,
                    action: a,
                    turn_id: u,
                },
            ) && st == status_present && a == optional_web_action(action) && known_as(
                t,
                IdNamespace::Item,
                text_view(id),
                i,
            ) && known_as(t, IdNamespace::Turn, text_view(turn_id), u))
            &&& item matches ResponseItem::ImageGenerationCall {
                id,
                revised_prompt_present,
                result_present,
                turn_id,
            } ==> (kept matches ItemModel::Plain(
                DebugResponseItem::ImageGenerationCall {
                    id: i,
                    revised_prompt_present: rp,
                    result_present: re,
                    turn_id: u,
                },
            ) && rp == revised_prompt_present && re == result_present && known_as(
                t,
                IdNamespace::Item,
                text_view(id),
                i,
            ) && known_as(t, IdNamespace::Turn, text_view(turn_id), u))
            &&& item matches ResponseItem::Compaction { id, turn_id } ==> (kept matches
                ItemModel::Plain(DebugResponseItem::Compaction { id: i, turn_id: u }) && known_as(
                t,
                IdNamespace::Item,
                text_view(id),
                i,
            ) && known_as(t, IdNamespace::Turn, text_view(turn_id), u))
            &&& item matches ResponseItem::ContextCompaction { id, encrypted, turn_id } ==> (
            kept matches ItemModel::Plain(
                DebugResponseItem::ContextCompaction { id: i, encrypted: e, turn_id: u },
            ) && e == encrypted && known_as(t, IdNamespace::Item, text_view(id), i) && known_as(
                t,
                IdNamespace::Turn,
                text_view(turn_id),
                u,
            ))
            &&& item is CompactionTrigger ==> kept == ItemModel::Plain(
                DebugResponseItem::CompactionTrigger,
            )
            &&& item is Other ==> kept == ItemModel::Plain(DebugResponseItem::Other)
        }),
{
    match item {
        ResponseItem::AdditionalTools { id, .. } => {
            lemma_two_known(s, IdNamespace::Item, text_view(id), IdNamespace::Turn, None);
        },
        ResponseItem::WebSearchCall { id, turn_id, .. } => {
            lemma_two_known(
                s,
                IdNamespace::Item,
                text_view(id),
                IdNamespace::Turn,
                text_view(turn_id),
            );
        },
        ResponseItem::ImageGenerationCall { id, turn_id, .. } => {
            lemma_two_known(
                s,
                IdNamespace::Item,
                text_view(id),
                IdNamespace::Turn,
                text_view(turn_id),
            );
        },
        ResponseItem::Compaction { id, turn_id } => {
            lemma_two_known(
                s,
                IdNamespace::Item,
                text_view(id),
                IdNamespace::Turn,
                text_view(turn_id),
            );
        },
        ResponseItem::ContextCompaction { id, turn_id, .. } => {
            lemma_two_known(
                s,
                IdNamespace::Item,
                text_view(id),
                IdNamespace::Turn,
                text_view(turn_id),
            );
        },
        _ => {},
    }
}

proof fn lemma_call_known(
    s: RedactorModel,
    tool: DebugToolKind,
    arguments: ToolText,
    call_id: Seq<char>,
    id: Option<Seq<char>>,
    turn_id: Option<Seq<char>>,
)
    requires
        redactor_inv(s),
    ensures
        ({
            let a = arguments_step(s, tool, arguments);
            let b = id_step(a.0, IdNamespace::Call, call_id);
            let c = remember_step(b.0, b.1, tool, arguments);
            let d = opt_id_step(c, IdNamespace::Item, id);
            let e = opt_id_step(d.0, IdNamespace::Turn, turn_id);
            &&& sound_growth(s, e.0)
            &&& e.0.failure is None ==> known_as(e.0, IdNamespace::Call, Some(call_id), Some(b.1))
                && known_as(e.0, IdNamespace::Item, id, d.1) && known_as(
                e.0,
                IdNamespace::Turn,
                turn_id,
                e.1,
            ) && e.0.calls.contains_key(b.1) && e.0.calls[b.1].tool == tool
                && e.0.calls[b.1].spawn_request == (if tool is SpineSpawn {
                request_size(arguments.request, s.carriers.child_input_bytes as nat)
            } else {
                None
            })
        }),
{
    let a = arguments_step(s, tool, arguments);
    let b = id_step(a.0, IdNamespace::Call, call_id);
    let c = remember_step(b.0, b.1, tool, arguments);
    let d = opt_id_step(c, IdNamespace::Item, id);
    let e = opt_id_step(d.0, IdNamespace::Turn, turn_id);
    lemma_arguments(s, tool, arguments);
    lemma_id(a.0, IdNamespace::Call, call_id);
    lemma_trans(s, a.0, b.0);
    lemma_remember(b.0, b.1, tool, arguments);
    lemma_trans(s, b.0, c);
    lemma_two_known(c, IdNamespace::Item, id, IdNamespace::Turn, turn_id);
    lemma_trans(s, c, e.0);
    lemma_trans(b.0, c, e.0);
    if e.0.failure is None {
        lemma_known(a.0, IdNamespace::Call, call_id, e.0);
    }
}

/// Within the limits, a tool call keeps the kind of its tool and what is kept of
/// its arguments, and is awaited under its number with that kind.
pub proof fn tool_calls_are_kept(s: RedactorModel, item: ResponseItem, raw: Option<Json>)
    requires
        redactor_inv(s),
        item_step(s, item, raw).0.failure is None,
        item is FunctionCall || item is CustomToolCall,
    ensures
        ({
            let (t, kept) = item_step(s, item, raw);
            match (item, kept) {
                (
                    ResponseItem::FunctionCall {
                        id,
                        name,
                        namespace,
                        code_mode,
                        arguments,
                        call_id,
                        turn_id,
                    },
                    ItemModel::FunctionCall { id: i, call_id: c, tool, arguments: a, turn_id: u },
                ) => {
                    &&& tool == tool_kind(text_view(namespace), name@, code_mode)
                    &&& a == arguments_step(s, tool, arguments).1
                    &&& known_as(t, IdNamespace::Item, text_view(id), i)
                    &&& known_as(t, IdNamespace::Call, Some(call_id@), Some(c))
                    &&& known_as(t, IdNamespace::Turn, text_view(turn_id), u)
                    &&& t.calls.contains_key(c)
                    &&& t.calls[c].tool == tool
                    &&& t.calls[c].spawn_request == (if tool is SpineSpawn {
                        request_size(arguments.request, s.carriers.child_input_bytes as nat)
                    } else {
                        None
                    })
                },
                (
                    ResponseItem::CustomToolCall {
                        id,
                        status_present,
                        call_id,
                        name,
                        namespace,
                        code_mode,
                        input,
                        turn_id,
                    },
                    ItemModel::CustomToolCall {
                        id: i,
                        call_id: c,
                        tool,
                        status_present: st,
                        arguments: a,
                        turn_id: u,
                    },
                ) => {
                    &&& st == status_present
                    &&& tool == tool_kind(text_view(namespace), name@, code_mode)
                    &&& a == arguments_step(s, tool, input).1
                    &&& known_as(t, IdNamespace::Item, text_view(id), i)
                    &&& known_as(t, IdNamespace::Call, Some(call_id@), Some(c))
                    &&& known_as(t, IdNamespace::Turn, text_view(turn_id), u)
                    &&& t.calls.contains_key(c)
                    &&& t.calls[c].tool == tool
                    &&& t.calls[c].spawn_request == (if tool is SpineSpawn {
                        request_size(input.request, s.carriers.child_input_bytes as nat)
                    } else {
                        None
                    })
                },
                _ => false,
            }
        }),
{
    match item {
        ResponseItem::FunctionCall {
            id,
            name,
            namespace,
            code_mode,
            arguments,
            call_id,
            turn_id,
        } => {
            let tool = tool_kind(text_view(namespace), name@, code_mode);
            lemma_call_known(s, tool, arguments, call_id@, text_view(id), text_view(turn_id));
        },
        ResponseItem::CustomToolCall {
            id,
            call_id,
            name,
            namespace,
            code_mode,
            input,
            turn_id,
            ..
        } => {
            let tool = tool_kind(text_view(namespace), name@, code_mode);
            lemma_call_known(s, tool, input, call_id@, text_view(id), text_view(turn_id));
        },
        _ => {},
    }
}

/// Within the limits, an output is kept as that of the call that awaits it, and
/// that call is awaited no more.
pub proof fn tool_outputs_are_kept(s: RedactorModel, item: ResponseItem, raw: Option<Json>)
    requires
        redactor_inv(s),
        item_step(s, item, raw).0.failure is None,
        item is FunctionCallOutput || item is CustomToolCallOutput,
    ensures
        ({
            let (t, kept) = item_step(s, item, raw);
            match (item, kept) {
                (
                    ResponseItem::FunctionCallOutput { id, call_id, output, turn_id },
                    ItemModel::FunctionCallOutput { id: i, call_id: c, output: o, turn_id: u },
                ) => {
                    &&& known_as(t, IdNamespace::Item, text_view(id), i)
                    &&& known_as(t, IdNamespace::Call, text_view(call_id), c)
                    &&& known_as(t, IdNamespace::Turn, text_view(turn_id), u)
                    &&& c matches Some(c) ==> !t.calls.contains_key(c)
                    &&& (c is None || !s.calls.contains_key(c->Some_0)) ==> o == (
                    OutputModel::Redacted { body: output_body(output.body) })
                    &&& c matches Some(c) ==> (s.calls.contains_key(c) && is_control(
                        s.calls[c].tool,
                    ) ==> (o matches OutputModel::Control { exact_success_carrier, body } && body
                        == output_body(output.body) && exact_success_carrier == says(
                        output.body,
                        carrier(s.carriers, s.calls[c].tool),
                    )))
                    &&& c matches Some(c) ==> (s.calls.contains_key(c) && s.calls[c].tool
                        is SpineSpawn ==> o is Spawn)
                    &&& c matches Some(c) ==> (s.calls.contains_key(c) && !(s.calls[c].tool
                        is SpineSpawn) && !is_control(s.calls[c].tool) ==> o == (
                    OutputModel::Redacted { body: output_body(output.body) }))
                },
                (
                    ResponseItem::CustomToolCallOutput {
                        id,
                        call_id,
                        name_present,
                        output,
                        turn_id,
                    },
                    ItemModel::CustomToolCallOutput {
                        id: i,
                        call_id: c,
                        output_name,
                        output: o,
                        turn_id: u,
                    },
                ) => {
                    &&& known_as(t, IdNamespace::Item, text_view(id), i)
                    &&& known_as(t, IdNamespace::Call, Some(call_id@), Some(c))
                    &&& known_as(t, IdNamespace::Turn, text_view(turn_id), u)
                    &&& output_name == (if name_present {
                        DebugOutputName::Other
                    } else {
                        DebugOutputName::Absent
                    })
                    &&& !t.calls.contains_key(c)
                    &&& !s.calls.contains_key(c) ==> o == (OutputModel::Redacted {
                        body: output_body(output.body),
                    })
                    &&& s.calls.contains_key(c) && is_control(s.calls[c].tool) ==> (o matches
                        OutputModel::Control { exact_success_carrier, body } && body == output_body(
                        output.body,
                    ) && exact_success_carrier == says(
                        output.body,
                        carrier(s.carriers, s.calls[c].tool),
                    ))
                    &&& s.calls.contains_key(c) && s.calls[c].tool is SpineSpawn ==> o is Spawn
                    &&& s.calls.contains_key(c) && !(s.calls[c].tool is SpineSpawn) && !is_control(
                        s.calls[c].tool,
                    ) ==> o == (OutputModel::Redacted { body: output_body(output.body) })
                },
                _ => false,
            }
        }),
{
    match item {
        ResponseItem::FunctionCallOutput { id, call_id, output, turn_id } => {
            let a = opt_id_step(s, IdNamespace::Call, text_view(call_id));
            lemma_opt(s, IdNamespace::Call, text_view(call_id));
            assert(a.0.calls == s.calls);
            lemma_answer_known(
                a.0,
                a.1,
                output,
                field_of(raw, "output"@),
                text_view(id),
                text_view(turn_id),
            );
            let t = item_step(s, item, raw).0;
            lemma_known_opt(s, IdNamespace::Call, text_view(call_id), t);
        },
        ResponseItem::CustomToolCallOutput { id, call_id, output, turn_id, .. } => {
            let a = id_step(s, IdNamespace::Call, call_id@);
            lemma_id(s, IdNamespace::Call, call_id@);
            lemma_answer_known(
                a.0,
                Some(a.1),
                output,
                field_of(raw, "output"@),
                text_view(id),
                text_view(turn_id),
            );
            let t = item_step(s, item, raw).0;
            lemma_known(s, IdNamespace::Call, call_id@, t);
        },
        _ => {},
    }
}

/// Whether a tool answers with a fixed text.
pub open spec fn is_control(tool: DebugToolKind) -> bool {
    tool is SpineOpen || tool is SpineClose || tool is SpineNext
}

/// The text by which such a tool reports success.
pub open spec fn carrier(carriers: SpineCarriers, tool: DebugToolKind) -> Seq<char> {
    match tool {
        DebugToolKind::SpineOpen => carriers.open@,
        DebugToolKind::SpineClose => carriers.close@,
        _ => carriers.next@,
    }
}

/// Whether an output is exactly a text.
pub open spec fn says(body: OutputBody, text: Seq<char>) -> bool {
    body matches OutputBody::Text(said) && said@ == text
}

proof fn lemma_results_keep_calls(s: RedactorModel, items: Seq<Json>)
    ensures
        results_step(s, items).0.calls == s.calls,
    decreases items.len(),
{
    if items.len() > 0 {
        lemma_results_keep_calls(s, items.drop_last());
    }
}

proof fn lemma_answer_known(
    s: RedactorModel,
    call_id: Option<u64>,
    output: ToolOutput,
    raw_output: Option<Json>,
    id: Option<Seq<char>>,
    turn_id: Option<Seq<char>>,
)
    requires
        redactor_inv(s),
    ensures
        ({
            let b = take_call_step(s, call_id);
            let c = output_step(b.0, b.1, output, raw_output);
            let d = opt_id_step(c.0, IdNamespace::Item, id);
            let e = opt_id_step(d.0, IdNamespace::Turn, turn_id);
            &&& sound_growth(s, e.0)
            &&& e.0.failure is None ==> b.0.failure is None && known_as(
                e.0,
                IdNamespace::Item,
                id,
                d.1,
            ) && known_as(e.0, IdNamespace::Turn, turn_id, e.1)
            &&& call_id matches Some(n) ==> !e.0.calls.contains_key(n)
        }),
{
    let b = take_call_step(s, call_id);
    let c = output_step(b.0, b.1, output, raw_output);
    let d = opt_id_step(c.0, IdNamespace::Item, id);
    let e = opt_id_step(d.0, IdNamespace::Turn, turn_id);
    lemma_take(s, call_id);
    lemma_output(b.0, b.1, output, raw_output);
    lemma_trans(s, b.0, c.0);
    lemma_two_known(c.0, IdNamespace::Item, id, IdNamespace::Turn, turn_id);
    lemma_trans(s, c.0, e.0);
    lemma_trans(b.0, c.0, e.0);
    assert(c.0.calls == b.0.calls) by {
        if let Some(call) = b.1 {
            if call.tool is SpineSpawn && b.0.failure is None {
                let scanned = match raw_output {
                    Some(Json::Text(text)) => scan_step(b.0, output.scan),
                    _ => (b.0, true),
                };
                let parsed = match raw_output {
                    Some(Json::Text(text)) => if scanned.1 {
                        json_value(encode_utf8(text@))
                    } else {
                        None
                    },
                    _ => raw_output,
                };
                lemma_results_keep_calls(scanned.0, elements(field_of(parsed, "results"@)));
            }
        }
    }
}

/// What is kept of a spawn receipt that was read: its schema, the shape of each
/// result, and whether it is valid for the request that it answers.
pub proof fn receipts_are_kept(
    s: RedactorModel,
    value: Json,
    output: ToolOutput,
    request: Option<usize>,
)
    requires
        !(value is Text),
    ensures
        ({
            let (t, kept) = receipt_step(s, Some(value), output, request);
            let results = field_of(Some(value), "results"@);
            &&& kept.object == object_state(Some(value))
            &&& kept.schema == schema_text_shape(
                field_of(Some(value), "schema"@),
                s.carriers.receipt_schema@,
            )
            &&& kept.unknown_fields == unknown_fields(Some(value), seq!["schema"@, "results"@])
            &&& kept.valid_for_request <==> exists|size: usize|
                request == Some(size) && #[trigger] output.receipt_sizes@.contains(size)
            &&& kept.results.shape == collection_shape(results)
            &&& kept.results.items.len() == elements(results).len()
        }),
{
    lemma_results_len(s, elements(field_of(Some(value), "results"@)));
}

/// A receipt that is a text is read as JSON where that stays within the budgets;
/// else there is nothing in it.
pub proof fn written_receipts_are_read(
    s: RedactorModel,
    text: String,
    output: ToolOutput,
    request: Option<usize>,
)
    ensures
        ({
            let kept = receipt_step(s, Some(Json::Text(text)), output, request).1;
            let fits = s.record_json_nodes + output.scan.nodes
                <= s.limits.max_json_nodes_per_record && s.package_json_nodes + output.scan.nodes
                <= s.limits.max_json_nodes_per_package;
            let parsed = json_value(encode_utf8(text@));
            &&& fits && output.scan.well_formed ==> kept.object == object_state(parsed)
            &&& !(fits && output.scan.well_formed) ==> kept.object
                == DebugObjectState::MalformedJson && !kept.valid_for_request
                && kept.results.items.len() == 0
        }),
{
}

proof fn lemma_results_len(s: RedactorModel, items: Seq<Json>)
    ensures
        results_step(s, items).1.len() == items.len(),
    decreases items.len(),
{
    if items.len() > 0 {
        lemma_results_len(s, items.drop_last());
    }
}

/// Each result of a receipt keeps the shape of its fields, in its place; a run of
/// an agent that it names is kept as its number.
pub proof fn results_keep_their_place(s: RedactorModel, items: Seq<Json>, i: int)
    requires
        0 <= i < items.len(),
    ensures
        ({
            let kept = results_step(s, items).1;
            let item = Some(items[i]);
            &&& kept.len() == items.len()
            &&& kept[i].object == object_state(item)
            &&& kept[i].ordinal == number_shape(field_of(item, "ordinal"@))
            &&& kept[i].outcome == outcome_shape(field_of(item, "outcome"@))
            &&& kept[i].memory_body == text_shape(field_of(item, "memory_body"@))
            &&& kept[i].diagnostic == text_shape(field_of(item, "diagnostic"@))
            &&& kept[i].execution_ref.shape == text_shape(field_of(item, "execution_ref"@))
            &&& kept[i].execution_ref.local_id is Some <==> (text_of(
                field_of(item, "execution_ref"@),
            ) matches Some(text) && text.len() > 0)
            &&& kept[i].unknown_fields == unknown_fields(
                item,
                seq!["ordinal"@, "outcome"@, "memory_body"@, "diagnostic"@, "execution_ref"@],
            )
        }),
    decreases items.len(),
{
    lemma_results_len(s, items);
    let rest = items.drop_last();
    lemma_results_len(s, rest);
    if i < rest.len() {
        results_keep_their_place(s, rest, i);
        assert(rest[i] == items[i]);
        assert(results_step(s, items).1[i] == results_step(s, rest).1[i]);
    }
}

/// Equal runs of agents get equal numbers, and a result's run is numbered as a
/// run.
pub proof fn a_run_is_numbered(s: RedactorModel, item: Json)
    requires
        redactor_inv(s),
        result_step(s, item).0.failure is None,
    ensures
        text_of(field_of(Some(item), "execution_ref"@)) matches Some(text) ==> (text.len() > 0
            ==> known_as(
            result_step(s, item).0,
            IdNamespace::Execution,
            Some(text),
            result_step(s, item).1.execution_ref.local_id,
        )),
{
    if let Some(text) = text_of(field_of(Some(item), "execution_ref"@)) {
        if text.len() > 0 {
            lemma_id(s, IdNamespace::Execution, text);
            lemma_known(s, IdNamespace::Execution, text, result_step(s, item).0);
        }
    }
}

/// The arguments of a tool that is no Spine control keep the type of the value
/// that they spell, if they spell one.
pub proof fn other_arguments_keep_their_type(
    s: RedactorModel,
    tool: DebugToolKind,
    arguments: ToolText,
)
    requires
        s.failure is None,
        !(tool is SpineOpen || tool is SpineClose || tool is SpineNext || tool is SpineSpawn),
    ensures
        ({
            let fits = s.record_json_nodes + arguments.scan.nodes
                <= s.limits.max_json_nodes_per_record && s.package_json_nodes
                + arguments.scan.nodes <= s.limits.max_json_nodes_per_package;
            arguments_step(s, tool, arguments).1 == ArgumentsModel::Plain(
                DebugToolArguments::Redacted {
                    shape: match json_value(encode_utf8(arguments.text@)) {
                        Some(value) => if fits && arguments.scan.well_formed {
                            value_shape(value)
                        } else {
                            DebugJsonValueShape::MalformedJson
                        },
                        None => DebugJsonValueShape::MalformedJson,
                    },
                },
            )
        }),
{
}

/// The arguments of a Spine control keep the shape of each expected field, and
/// are valid exactly where those say something and nothing else is there.
pub proof fn control_arguments_keep_their_shape(
    s: RedactorModel,
    tool: DebugToolKind,
    arguments: ToolText,
)
    requires
        s.failure is None,
        tool is SpineOpen || tool is SpineClose || tool is SpineNext || tool is SpineSpawn,
        arguments.scan.well_formed,
        s.record_json_nodes + arguments.scan.nodes <= s.limits.max_json_nodes_per_record,
        s.package_json_nodes + arguments.scan.nodes <= s.limits.max_json_nodes_per_package,
    ensures
        ({
            let value = json_value(encode_utf8(arguments.text@));
            let summary_shape = text_shape(field_of(value, "summary"@));
            let memory_shape = text_shape(field_of(value, "memory"@));
            let is_object = object_state(value) == DebugObjectState::Object;
            match (tool, arguments_step(s, tool, arguments).1) {
                (
                    DebugToolKind::SpineOpen,
                    ArgumentsModel::Plain(
                        DebugToolArguments::Open { object, summary, unknown_fields: other, valid },
                    ),
                ) => object == object_state(value) && summary == summary_shape && other
                    == unknown_fields(value, seq!["summary"@]) && (valid <==> is_object
                    && summary_shape == DebugStringShape::NonEmpty && !other),
                (
                    DebugToolKind::SpineClose,
                    ArgumentsModel::Plain(
                        DebugToolArguments::Close { object, memory, unknown_fields: other, valid },
                    ),
                ) => object == object_state(value) && memory == memory_shape && other
                    == unknown_fields(value, seq!["memory"@]) && (valid <==> is_object
                    && memory_shape == DebugStringShape::NonEmpty && !other),
                (
                    DebugToolKind::SpineNext,
                    ArgumentsModel::Plain(
                        DebugToolArguments::Next {
                            object,
                            summary,
                            memory,
                            unknown_fields: other,
                            valid,
                        },
                    ),
                ) => object == object_state(value) && summary == summary_shape && memory
                    == memory_shape && other == unknown_fields(value, seq!["summary"@, "memory"@])
                    && (valid <==> is_object && summary_shape == DebugStringShape::NonEmpty
                    && memory_shape == DebugStringShape::NonEmpty && !other),
                (
                    DebugToolKind::SpineSpawn,
                    ArgumentsModel::Spawn { object, tasks, unknown_fields: other, valid },
                ) => object == object_state(value) && tasks == task_shapes(
                    field_of(value, "tasks"@),
                ) && other == unknown_fields(value, seq!["tasks"@]) && (valid <==> request_size(
                    arguments.request,
                    s.carriers.child_input_bytes as nat,
                ) is Some),
                _ => false,
            }
        }),
{
}

/// A scanned text is charged once to its record and once to the package; one
/// that does not fit latches the failure and is not read.
pub proof fn scans_are_charged(s: RedactorModel, scan: JsonScan)
    requires
        redactor_inv(s),
        s.failure is None,
    ensures
        ({
            let (t, read) = scan_step(s, scan);
            let fits = s.record_json_nodes + scan.nodes <= s.limits.max_json_nodes_per_record
                && s.package_json_nodes + scan.nodes <= s.limits.max_json_nodes_per_package;
            &&& fits ==> t.failure is None && read == scan.well_formed && t.record_json_nodes
                == s.record_json_nodes + scan.nodes && t.package_json_nodes == s.package_json_nodes
                + scan.nodes
            &&& !fits ==> !read && t.failure == Some(
                RolloutDebugRedactorError::ResourceLimitExceeded,
            )
            &&& t.ids == s.ids && t.calls == s.calls && t.limits == s.limits
        }),
{
}

/// A new identifier gets the next number of its namespace, and a known one the
/// number that it has; only past a limit is there no number.
pub proof fn identifiers_are_numbered_in_order(
    s: RedactorModel,
    namespace: IdNamespace,
    value: Seq<char>,
)
    requires
        redactor_inv(s),
        s.failure is None,
    ensures
        ({
            let (t, number) = id_step(s, namespace, value);
            let table = ids_in(s, namespace);
            let fits = s.tracked_id_entries < s.limits.max_tracked_id_entries && s.tracked_id_bytes
                + crate::text::byte_len(value) <= s.limits.max_tracked_id_bytes;
            &&& table.contains_key(value) ==> t == s && number == table[value]
            &&& !table.contains_key(value) && fits ==> number == table.len() && ids_in(t, namespace)
                == table.insert(value, number) && t.failure is None && t.tracked_id_entries
                == s.tracked_id_entries + 1 && t.tracked_id_bytes == s.tracked_id_bytes
                + crate::text::byte_len(value)
            &&& !table.contains_key(value) && !fits ==> t.failure == Some(
                RolloutDebugRedactorError::ResourceLimitExceeded,
            )
        }),
{
    lemma_id(s, namespace, value);
}

/// A call is awaited once, and no more calls are awaited than the limit allows.
pub proof fn calls_are_awaited_within_the_limit(
    s: RedactorModel,
    call_id: u64,
    tool: DebugToolKind,
    arguments: ToolText,
)
    requires
        s.failure is None,
    ensures
        ({
            let t = remember_step(s, call_id, tool, arguments);
            &&& s.calls.contains_key(call_id) ==> t.failure == Some(
                RolloutDebugRedactorError::AmbiguousCallId,
            )
            &&& !s.calls.contains_key(call_id) && s.calls.len() >= s.limits.max_pending_calls
                ==> t.failure == Some(RolloutDebugRedactorError::ResourceLimitExceeded)
            &&& !s.calls.contains_key(call_id) && s.calls.len() < s.limits.max_pending_calls
                ==> t.failure is None && t.calls.dom() == s.calls.dom().insert(call_id)
                && t.calls[call_id].tool == tool
        }),
{
}

/// Within the limits, the metadata of a session keeps its counts and the numbers
/// of its session, its thread, the threads that it comes from and its window.
pub proof fn session_metadata_is_kept(s: RedactorModel, item: RolloutItem, raw: Option<Json>)
    requires
        redactor_inv(s),
        item is SessionMeta,
        record_step(s, item, raw).0.failure is None,
    ensures
        ({
            let (t, kept) = record_step(s, item, raw);
            match (item, kept) {
                (
                    RolloutItem::SessionMeta {
                        session_id,
                        thread_id,
                        forked_from_id,
                        parent_thread_id,
                        context_window_id,
                        dynamic_tool_count,
                        capability_root_count,
                    },
                    RecordModel::Plain(
                        DebugRolloutRecord::SessionMeta {
                            session_id: se,
                            thread_id: th,
                            forked_from_thread_id: fo,
                            parent_thread_id: pa,
                            context_window_id: wi,
                            dynamic_tool_count: dt,
                            capability_root_count: cr,
                        },
                    ),
                ) => {
                    &&& known_as(t, IdNamespace::Session, Some(session_id@), Some(se))
                    &&& known_as(t, IdNamespace::Thread, Some(thread_id@), Some(th))
                    &&& known_as(t, IdNamespace::Thread, text_view(forked_from_id), fo)
                    &&& known_as(t, IdNamespace::Thread, text_view(parent_thread_id), pa)
                    &&& known_as(t, IdNamespace::Window, text_view(context_window_id), wi)
                    &&& dynamic_tool_count matches Some(n) ==> dt == n
                    &&& dynamic_tool_count is None ==> dt == 0
                    &&& cr == capability_root_count
                },
                _ => false,
            }
        }),
{
    if let RolloutItem::SessionMeta {
        session_id,
        thread_id,
        forked_from_id,
        parent_thread_id,
        context_window_id,
        ..
    } = item {
        let t = record_step(s, item, raw).0;
        let a = id_step(s, IdNamespace::Session, session_id@);
        let b = id_step(a.0, IdNamespace::Thread, thread_id@);
        lemma_id(s, IdNamespace::Session, session_id@);
        lemma_id(a.0, IdNamespace::Thread, thread_id@);
        lemma_three_known(
            b.0,
            IdNamespace::Thread,
            text_view(forked_from_id),
            IdNamespace::Thread,
            text_view(parent_thread_id),
            IdNamespace::Window,
            text_view(context_window_id),
        );
        lemma_trans(a.0, b.0, t);
        lemma_known(s, IdNamespace::Session, session_id@, t);
        lemma_known(a.0, IdNamespace::Thread, thread_id@, t);
    }
}

/// Within the limits, a message between agents keeps the numbers of its author,
/// its recipient and each further recipient in order, and what it triggers.
pub proof fn agent_communication_is_kept(s: RedactorModel, item: RolloutItem, raw: Option<Json>)
    requires
        redactor_inv(s),
        item is InterAgentCommunication,
        record_step(s, item, raw).0.failure is None,
    ensures
        ({
            let (t, kept) = record_step(s, item, raw);
            match (item, kept) {
                (
                    RolloutItem::InterAgentCommunication {
                        id,
                        author,
                        recipient,
                        other_recipients,
                        trigger_turn,
                        encrypted,
                        turn_id,
                    },
                    RecordModel::InterAgentCommunication {
                        id: i,
                        author: a,
                        recipient: r,
                        other_recipients: o,
                        trigger_turn: tr,
                        encrypted: e,
                        turn_id: u,
                    },
                ) => {
                    &&& tr == trigger_turn
                    &&& e == encrypted
                    &&& known_as(t, IdNamespace::Item, text_view(id), i)
                    &&& known_as(t, IdNamespace::Agent, Some(author@), Some(a))
                    &&& known_as(t, IdNamespace::Agent, Some(recipient@), Some(r))
                    &&& known_as(t, IdNamespace::Turn, text_view(turn_id), u)
                    &&& o.len() == other_recipients@.len()
                    &&& forall|k: int|
                        0 <= k < o.len() ==> known_as(
                            t,
                            IdNamespace::Agent,
                            Some(other_recipients@[k]@),
                            Some(#[trigger] o[k]),
                        )
                },
                _ => false,
            }
        }),
{
    if let RolloutItem::InterAgentCommunication {
        id,
        author,
        recipient,
        other_recipients,
        turn_id,
        ..
    } = item {
        let t = record_step(s, item, raw).0;
        let a = opt_id_step(s, IdNamespace::Item, text_view(id));
        let b = id_step(a.0, IdNamespace::Agent, author@);
        let c = id_step(b.0, IdNamespace::Agent, recipient@);
        let d = agents_step(c.0, other_recipients@);
        lemma_opt(s, IdNamespace::Item, text_view(id));
        lemma_id(a.0, IdNamespace::Agent, author@);
        lemma_id(b.0, IdNamespace::Agent, recipient@);
        lemma_agents(c.0, other_recipients@);
        lemma_opt(d.0, IdNamespace::Turn, text_view(turn_id));
        lemma_trans(c.0, d.0, t);
        lemma_trans(b.0, c.0, t);
        lemma_trans(a.0, b.0, t);
        lemma_known_opt(s, IdNamespace::Item, text_view(id), t);
        lemma_known(a.0, IdNamespace::Agent, author@, t);
        lemma_known(b.0, IdNamespace::Agent, recipient@, t);
        lemma_agents_known(c.0, other_recipients@, t);
        lemma_known_opt(d.0, IdNamespace::Turn, text_view(turn_id), t);
    }
}

proof fn lemma_agents_known(s: RedactorModel, agents: Seq<String>, t: RedactorModel)
    requires
        redactor_inv(s),
        sound_growth(agents_step(s, agents).0, t),
        t.failure is None,
    ensures
        agents_step(s, agents).1.len() == agents.len(),
        forall|k: int|
            0 <= k < agents.len() ==> known_as(
                t,
                IdNamespace::Agent,
                Some(agents[k]@),
                Some(#[trigger] agents_step(s, agents).1[k]),
            ),
    decreases agents.len(),
{
    if agents.len() > 0 {
        let rest = agents.drop_last();
        let before = agents_step(s, rest);
        lemma_agents(s, rest);
        lemma_id(before.0, IdNamespace::Agent, agents.last()@);
        let last = id_step(before.0, IdNamespace::Agent, agents.last()@);
        lemma_trans(before.0, last.0, t);
        lemma_agents_known(s, rest, t);
        lemma_known(before.0, IdNamespace::Agent, agents.last()@, t);
        assert forall|k: int| 0 <= k < agents.len() implies known_as(
            t,
            IdNamespace::Agent,
            Some(agents[k]@),
            Some(#[trigger] agents_step(s, agents).1[k]),
        ) by {
            if k < rest.len() {
                assert(rest[k] == agents[k]);
                assert(agents_step(s, agents).1[k] == before.1[k]);
            }
        }
    }
}

/// Within the limits, a compaction keeps its window's number and the numbers of
/// its windows, and one item for each of its replacement history, each as it
/// would be kept after those before it.
pub proof fn compactions_are_kept(s: RedactorModel, item: RolloutItem, raw: Option<Json>)
    requires
        redactor_inv(s),
        item is Compacted,
        record_step(s, item, raw).0.failure is None,
    ensures
        ({
            let (t, kept) = record_step(s, item, raw);
            match (item, kept) {
                (
                    RolloutItem::Compacted {
                        replacement_history,
                        window_number,
                        first_window_id,
                        previous_window_id,
                        window_id,
                    },
                    RecordModel::Compacted {
                        replacement_history: h,
                        window_number: n,
                        first_window_id: f,
                        previous_window_id: p,
                        window_id: w,
                    },
                ) => {
                    &&& n == window_number
                    &&& known_as(t, IdNamespace::Window, text_view(first_window_id), f)
                    &&& known_as(t, IdNamespace::Window, text_view(previous_window_id), p)
                    &&& known_as(t, IdNamespace::Window, text_view(window_id), w)
                    &&& replacement_history is None <==> h is None
                    &&& replacement_history matches Some(items) ==> h->Some_0.len() == items@.len()
                },
                _ => false,
            }
        }),
{
    if let RolloutItem::Compacted {
        replacement_history,
        first_window_id,
        previous_window_id,
        window_id,
        ..
    } = item {
        let raws = elements(field_of(raw, "replacement_history"@));
        let a = match replacement_history {
            Some(items) => items_step(s, items@, raws).0,
            None => s,
        };
        if let Some(items) = replacement_history {
            lemma_items(s, items@, raws);
            lemma_items_len(s, items@, raws);
        }
        lemma_three_known(
            a,
            IdNamespace::Window,
            text_view(first_window_id),
            IdNamespace::Window,
            text_view(previous_window_id),
            IdNamespace::Window,
            text_view(window_id),
        );
    }
}

proof fn lemma_items_len(s: RedactorModel, items: Seq<ResponseItem>, raws: Seq<Json>)
    ensures
        items_step(s, items, raws).1.len() == items.len(),
    decreases items.len(),
{
    if items.len() > 0 {
        lemma_items_len(s, items.drop_last(), raws);
    }
}

/// Each item of a replacement history is kept as it would be on its own, after
/// those before it and with its own raw value.
pub proof fn replacements_are_kept_in_order(
    s: RedactorModel,
    items: Seq<ResponseItem>,
    raws: Seq<Json>,
    i: int,
)
    requires
        0 <= i < items.len() <= raws.len(),
    ensures
        items_step(s, items, raws).1.len() == items.len(),
        items_step(s, items, raws).1[i] == item_step(
            items_step(s, items.take(i), raws).0,
            items[i],
            Some(raws[i]),
        ).1,
    decreases items.len(),
{
    lemma_items_len(s, items, raws);
    let rest = items.drop_last();
    lemma_items_len(s, rest, raws);
    if i < rest.len() {
        replacements_are_kept_in_order(s, rest, raws, i);
        assert(rest.take(i) =~= items.take(i));
        assert(items_step(s, items, raws).1[i] == items_step(s, rest, raws).1[i]);
    } else {
        assert(items.take(i) =~= rest);
    }
}

/// What the other records keep.
pub proof fn plain_records_are_kept(s: RedactorModel, item: RolloutItem, raw: Option<Json>)
    requires
        redactor_inv(s),
        record_step(s, item, raw).0.failure is None,
    ensures
        ({
            let (t, kept) = record_step(s, item, raw);
            &&& item matches RolloutItem::TurnContext {
                turn_id,
                workspace_root_count,
                realtime_active,
            } ==> (kept matches RecordModel::Plain(
                DebugRolloutRecord::TurnContext {
                    turn_id: u,
                    workspace_root_count: n,
                    realtime_active: ra,
                },
            ) && n == workspace_root_count && ra == realtime_active && known_as(
                t,
                IdNamespace::Turn,
                text_view(turn_id),
                u,
            ))
            &&& item matches RolloutItem::WorldState { full } ==> kept == RecordModel::Plain(
                DebugRolloutRecord::WorldState { full },
            )
            &&& item matches RolloutItem::InterAgentCommunicationMetadata { trigger_turn } ==> kept
                == RecordModel::Plain(
                DebugRolloutRecord::InterAgentCommunicationMetadata { trigger_turn },
            )
            &&& item matches RolloutItem::EventMsg(event) ==> (kept matches RecordModel::Event {
                event: e,
            } && e == event_shape(event))
            &&& item matches RolloutItem::EventMsg(EventMsg::TokenCount { info: Some(info) }) ==> (
            kept matches RecordModel::Event { event } && (event.token_usage matches Some(usage)
                && usage.total.total_tokens == info.total_token_usage.total_tokens
                && usage.last.total_tokens == info.last_token_usage.total_tokens
                && usage.total.input_tokens == info.total_token_usage.input_tokens
                && usage.last.input_tokens == info.last_token_usage.input_tokens
                && usage.total.output_tokens == info.total_token_usage.output_tokens
                && usage.last.output_tokens == info.last_token_usage.output_tokens))
            &&& item matches RolloutItem::TokenUsageRecord { usage } ==> (kept matches
                RecordModel::Plain(DebugRolloutRecord::TokenUsageRecord { usage: u })
                && u.input_tokens == usage.input_tokens && u.cached_input_tokens
                == usage.cached_input_tokens && u.output_tokens == usage.output_tokens
                && u.reasoning_output_tokens == usage.reasoning_output_tokens && u.total_tokens
                == usage.total_tokens)
            &&& item matches RolloutItem::ResponseItem(response) ==> (kept matches
                RecordModel::ResponseItem { item: i } && (t, i) == item_step(s, response, raw))
            &&& item is SecurityRiskScore ==> kept == RecordModel::Plain(
                DebugRolloutRecord::SecurityRiskScore,
            )
            &&& item is RealtimeItem ==> kept == RecordModel::Plain(
                DebugRolloutRecord::RealtimeItem,
            )
            &&& item is SpineSamplingStarted || item is SpineTransition ==> kept
                == RecordModel::Plain(
                DebugRolloutRecord::UnknownRedacted { scope: DebugPlaceholderScope::TopLevel },
            )
        }),
{
    if let RolloutItem::TurnContext { turn_id, .. } = item {
        lemma_two_known(s, IdNamespace::Turn, text_view(turn_id), IdNamespace::Item, None);
    }
}

/// A line that declares a known type and decodes is kept as the record that it
/// decodes to; one of an unknown type as unknown, and one that does not decode as
/// malformed, each at the place of what it declares.
pub proof fn lines_are_kept_by_their_type(
    s: RedactorModel,
    fields: Vec<(String, Json)>,
    decoded: Option<RolloutItem>,
    kind: Seq<char>,
    payload_kind: Seq<char>,
)
    requires
        text_of(field_of(Some(Json::Object(fields)), "type"@)) == Some(kind),
        text_of(
            field_of(field_of(Some(Json::Object(fields)), "payload"@), "type"@),
        ) == Some(payload_kind),
    ensures
        ({
            let raw = Json::Object(fields);
            let payload = field_of(Some(raw), "payload"@);
            let (t, kept) = value_step(s, raw, decoded);
            let known = rollout_types().contains(kind) && (kind == "response_item"@
                ==> item_types().contains(payload_kind)) && (kind == "event_msg"@
                ==> known_event_type(payload_kind));
            &&& !rollout_types().contains(kind) ==> kept == RecordModel::Plain(
                DebugRolloutRecord::UnknownRedacted { scope: DebugPlaceholderScope::TopLevel },
            ) && t == s
            &&& kind == "response_item"@ && !item_types().contains(payload_kind) ==> kept
                == RecordModel::Plain(
                DebugRolloutRecord::UnknownRedacted { scope: DebugPlaceholderScope::ResponseItem },
            ) && t == s
            &&& kind == "event_msg"@ && !known_event_type(payload_kind) ==> kept
                == RecordModel::Plain(
                DebugRolloutRecord::UnknownRedacted { scope: DebugPlaceholderScope::Event },
            ) && t == s
            &&& known && decoded is Some ==> (t, kept) == record_step(s, decoded->Some_0, payload)
            &&& known && decoded is None ==> t == s && kept == RecordModel::Plain(
                DebugRolloutRecord::MalformedRedacted {
                    scope: if kind == "response_item"@ {
                        DebugPlaceholderScope::ResponseItem
                    } else if kind == "event_msg"@ {
                        DebugPlaceholderScope::Event
                    } else {
                        DebugPlaceholderScope::TopLevel
                    },
                },
            )
        }),
{
    reveal_strlit("response_item");
    reveal_strlit("event_msg");
    assert("response_item"@.len() == 13 && "event_msg"@.len() == 9);
    lines_declare_their_types(kind);
    items_declare_their_types(payload_kind);
    lines_declare_their_types("response_item"@);
    lines_declare_their_types("event_msg"@);
}

/// What is no object is malformed.
pub proof fn what_is_no_object_is_malformed(
    s: RedactorModel,
    raw: Json,
    decoded: Option<RolloutItem>,
)
    requires
        !(raw is Object),
    ensures
        value_step(s, raw, decoded) == (
            s,
            RecordModel::Plain(
                DebugRolloutRecord::MalformedRedacted { scope: DebugPlaceholderScope::TopLevel },
            ),
        ),
{
}

/// A line that is JSON within the budgets is kept by its value; any other is
/// malformed as a line. Each line has the whole budget of a record.
pub proof fn lines_are_read_within_the_budgets(
    s: RedactorModel,
    line: Seq<u8>,
    scan: JsonScan,
    decoded: Option<RolloutItem>,
)
    requires
        redactor_inv(s),
        s.failure is None,
    ensures
        ({
            let (t, outcome) = outcome_step(s, line, scan, decoded);
            let fits = scan.nodes <= s.limits.max_json_nodes_per_record && s.package_json_nodes
                + scan.nodes <= s.limits.max_json_nodes_per_package;
            let malformed = RecordModel::Plain(
                DebugRolloutRecord::MalformedRedacted { scope: DebugPlaceholderScope::Line },
            );
            let charged = RedactorModel {
                record_json_nodes: scan.nodes as nat,
                package_json_nodes: (s.package_json_nodes + scan.nodes) as nat,
                ..s
            };
            &&& !fits ==> outcome == Err::<RecordModel, RolloutDebugRedactorError>(
                RolloutDebugRedactorError::ResourceLimitExceeded,
            )
            &&& fits && (!scan.well_formed || json_value(line) is None) ==> outcome == Ok::<
                RecordModel,
                RolloutDebugRedactorError,
            >(malformed)
            &&& fits && scan.well_formed && json_value(line) is Some ==> {
                let step = value_step(charged, json_value(line)->Some_0, decoded);
                t == step.0 && outcome == match step.0.failure {
                    Some(error) => Err::<RecordModel, RolloutDebugRedactorError>(error),
                    None => Ok(step.1),
                }
            }
        }),
{
    let charged = RedactorModel {
        record_json_nodes: scan.nodes as nat,
        package_json_nodes: (s.package_json_nodes + scan.nodes) as nat,
        ..s
    };
    let fits = scan.nodes <= s.limits.max_json_nodes_per_record && s.package_json_nodes
        + scan.nodes <= s.limits.max_json_nodes_per_package;
    if fits {
        assert(scan_step(RedactorModel { record_json_nodes: 0, ..s }, scan).0 =~= charged);
    }
}

/// Once a failure is latched, every line comes to it.
pub proof fn a_failure_is_all_that_comes(
    s: RedactorModel,
    line: Seq<u8>,
    scan: JsonScan,
    decoded: Option<RolloutItem>,
)
    requires
        s.failure is Some,
    ensures
        outcome_step(s, line, scan, decoded) == (
            s,
            Err::<RecordModel, RolloutDebugRedactorError>(s.failure->Some_0),
        ),
{
}

} // verus!

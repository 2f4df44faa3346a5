//! The stateful redactor that turns native rollout records into content-erased
//! diagnostic records.
//!
//! Its state serves two ends only: package-local identifier equality, and the
//! pairing of tool calls with their outputs. All of it is bounded, and the
//! first bound that is exceeded is latched as the redactor's failure.

use crate::debug_record::{
    DebugCollection, DebugCollectionShape, DebugJsonValueShape, DebugMappedString, DebugObjectState,
    DebugOutputName, DebugPlaceholderScope, DebugResponseItem, DebugRolloutRecord,
    DebugSpawnReceiptShape, DebugSpawnResultShape, DebugToolArguments, DebugToolKind,
    DebugToolOutput,
};
use crate::json::{field, has_unknown_fields, parse_json, text_value, Json};
use crate::rollout::{JsonScan, OutputBody, ResponseItem, RolloutItem, ToolOutput, ToolText};
use crate::shapes::{
    classify_tool, debug_agent_content_kinds, debug_content_kinds, debug_message_phase,
    debug_message_role, debug_output_body, debug_reasoning_content_kinds, debug_shell_status,
    debug_token_usage, debug_web_action, inspect_spawn_tasks, is_known_event_type,
    is_known_response_item_type, is_known_rollout_item_type, json_value_shape, missing_collection,
    object_shape, redact_event, schema_shape, spawn_outcome_shape, string_shape, unsigned_shape,
};
use crate::spawn_tasks::requested_tasks;
use crate::text::{byte_size, same_text};
use std::collections::BTreeMap;
use vstd::hash_map::StringHashMap;
use vstd::prelude::*;

verus! {

use crate::debug_record::{
    item_models, spine_tool, ArgumentsModel, CollectionModel, ItemModel, OutputModel, ReceiptModel,
    RecordModel,
};
use crate::json::{deref_option, field_of, json_value, name_views, text_of, unknown_fields};
use crate::shapes::{
    agent_content_kinds, collection_shape, content_kinds, countable_action, elements, event_shape,
    known_event_type, known_response_item_type, known_rollout_item_type, message_role, number_shape,
    object_state, optional_phase, optional_web_action, outcome_shape, output_body,
    reasoning_content_kinds, schema_text_shape, shell_status, task_shapes, text_shape, text_view,
    token_usage_shape, tool_kind, value_shape,
};
use crate::spawn_tasks::request_size;
use crate::text::byte_len;
use vstd::utf8::encode_utf8;

broadcast use vstd::std_specs::btree::group_btree_axioms;

pub const DEFAULT_MAX_TRACKED_ID_BYTES: usize = 8_388_608;

pub const DEFAULT_MAX_TRACKED_ID_ENTRIES: usize = 131_072;

pub const DEFAULT_MAX_PENDING_CALLS: usize = 32_768;

pub const DEFAULT_MAX_JSON_NODES_PER_RECORD: usize = 65_536;

pub const DEFAULT_MAX_JSON_NODES_PER_PACKAGE: usize = 4_194_304;

/// The kinds of identifiers that are mapped apart from each other.
#[derive(Clone, Copy, Debug, PartialEq, Eq, Structural)]
pub enum IdNamespace {
    Item,
    Call,
    Turn,
    Window,
    Thread,
    Session,
    Agent,
    Execution,
}

/// The number of identifier namespaces.
pub const NAMESPACES: usize = 8;

/// The position of a namespace's table.
pub open spec fn table_of(namespace: IdNamespace) -> int {
    match namespace {
        IdNamespace::Item => 0,
        IdNamespace::Call => 1,
        IdNamespace::Turn => 2,
        IdNamespace::Window => 3,
        IdNamespace::Thread => 4,
        IdNamespace::Session => 5,
        IdNamespace::Agent => 6,
        IdNamespace::Execution => 7,
    }
}

impl IdNamespace {
    fn table(self) -> (r: usize)
        ensures
            r == table_of(self),
            r < NAMESPACES,
    {
        match self {
            IdNamespace::Item => 0,
            IdNamespace::Call => 1,
            IdNamespace::Turn => 2,
            IdNamespace::Window => 3,
            IdNamespace::Thread => 4,
            IdNamespace::Session => 5,
            IdNamespace::Agent => 6,
            IdNamespace::Execution => 7,
        }
    }
}

/// A tool call whose output has not been seen yet. A spawn request that was
/// acceptable keeps how many tasks it asked for.
#[derive(Clone, Copy, Debug, PartialEq, Eq, Structural)]
pub struct DebugCallState {
    pub tool: DebugToolKind,
    pub spawn_request: Option<usize>,
}

#[derive(Clone, Copy, Debug, PartialEq, Eq, Structural)]
pub struct RedactorLimits {
    pub max_tracked_id_bytes: usize,
    pub max_tracked_id_entries: usize,
    pub max_pending_calls: usize,
    pub max_json_nodes_per_record: usize,
    pub max_json_nodes_per_package: usize,
}

/// The limits of a redactor that was made without any of its own.
pub open spec fn default_limits() -> RedactorLimits {
    RedactorLimits {
        max_tracked_id_bytes: DEFAULT_MAX_TRACKED_ID_BYTES,
        max_tracked_id_entries: DEFAULT_MAX_TRACKED_ID_ENTRIES,
        max_pending_calls: DEFAULT_MAX_PENDING_CALLS,
        max_json_nodes_per_record: DEFAULT_MAX_JSON_NODES_PER_RECORD,
        max_json_nodes_per_package: DEFAULT_MAX_JSON_NODES_PER_PACKAGE,
    }
}

impl Default for RedactorLimits {
    fn default() -> (r: Self)
        ensures
            r == default_limits(),
    {
        RedactorLimits {
            max_tracked_id_bytes: DEFAULT_MAX_TRACKED_ID_BYTES,
            max_tracked_id_entries: DEFAULT_MAX_TRACKED_ID_ENTRIES,
            max_pending_calls: DEFAULT_MAX_PENDING_CALLS,
            max_json_nodes_per_record: DEFAULT_MAX_JSON_NODES_PER_RECORD,
            max_json_nodes_per_package: DEFAULT_MAX_JSON_NODES_PER_PACKAGE,
        }
    }
}

/// The diagnostic package cannot be built without exceeding a closed safety boundary.
#[derive(Clone, Copy, Debug, PartialEq, Eq, Structural)]
pub enum RolloutDebugRedactorError {
    ResourceLimitExceeded,
    AmbiguousCallId,
}

impl RolloutDebugRedactorError {
    /// What the error says to a user.
    pub fn message(self) -> (r: &'static str)
        ensures
            r@ == (match self {
                RolloutDebugRedactorError::ResourceLimitExceeded =>
                    "rollout debug redactor state limit exceeded"@,
                RolloutDebugRedactorError::AmbiguousCallId =>
                    "rollout debug call identifier is ambiguous while still outstanding"@,
            }),
    {
        match self {
            RolloutDebugRedactorError::ResourceLimitExceeded =>
                "rollout debug redactor state limit exceeded",
            RolloutDebugRedactorError::AmbiguousCallId =>
                "rollout debug call identifier is ambiguous while still outstanding",
        }
    }
}

/// What is fixed about the Spine tools: the texts by which they answer, and the
/// size of the provider value of a child input that says nothing.
#[derive(Debug)]
pub struct SpineCarriers {
    pub open: String,
    pub close: String,
    pub next: String,
    pub receipt_schema: String,
    pub child_input_bytes: usize,
}

/// Stateful only for package-local identifier equality and request/output pairing.
/// Given the same record order, its output is deterministic.
pub struct RolloutDebugRedactor {
    ids: Vec<StringHashMap<u64>>,
    calls: BTreeMap<u64, DebugCallState>,
    tracked_id_bytes: usize,
    tracked_id_entries: usize,
    record_json_nodes: usize,
    package_json_nodes: usize,
    limits: RedactorLimits,
    carriers: SpineCarriers,
    failure: Option<RolloutDebugRedactorError>,
}

/// The abstract state of a redactor.
#[verifier::ext_equal]
pub ghost struct RedactorModel {
    /// For each namespace, the local number of every identifier seen in it.
    pub ids: Seq<Map<Seq<char>, u64>>,
    /// The calls that still await their output, by local call number.
    pub calls: Map<u64, DebugCallState>,
    pub tracked_id_bytes: nat,
    pub tracked_id_entries: nat,
    pub record_json_nodes: nat,
    pub package_json_nodes: nat,
    pub limits: RedactorLimits,
    pub carriers: SpineCarriers,
    pub failure: Option<RolloutDebugRedactorError>,
}

/// The identifiers mapped in one namespace.
pub open spec fn ids_in(s: RedactorModel, namespace: IdNamespace) -> Map<Seq<char>, u64> {
    s.ids[table_of(namespace)]
}

/// A table numbers its identifiers densely from zero, no two alike.
pub open spec fn dense(ids: Map<Seq<char>, u64>) -> bool {
    &&& ids.dom().finite()
    &&& forall|k: Seq<char>| #[trigger] ids.contains_key(k) ==> ids[k] < ids.len()
    &&& forall|k1: Seq<char>, k2: Seq<char>|
        ids.contains_key(k1) && ids.contains_key(k2) && #[trigger] ids[k1] == #[trigger] ids[k2]
            ==> k1 == k2
}

/// The bytes that the identifiers of a table occupy.
pub open spec fn key_bytes(ids: Map<Seq<char>, u64>) -> nat
    decreases ids.dom().len(),
{
    if ids.dom().finite() && ids.dom().len() > 0 {
        let id = ids.dom().choose();
        byte_len(id) + key_bytes(ids.remove(id))
    } else {
        0
    }
}

/// How many identifiers some tables hold.
#[verifier::opaque]
pub open spec fn entry_sum(tables: Seq<Map<Seq<char>, u64>>) -> nat
    decreases tables.len(),
{
    if tables.len() == 0 {
        0
    } else {
        entry_sum(tables.drop_last()) + tables.last().len()
    }
}

/// The bytes that the identifiers of some tables occupy.
#[verifier::opaque]
pub open spec fn byte_sum(tables: Seq<Map<Seq<char>, u64>>) -> nat
    decreases tables.len(),
{
    if tables.len() == 0 {
        0
    } else {
        byte_sum(tables.drop_last()) + key_bytes(tables.last())
    }
}

/// What every state of a redactor keeps.
pub open spec fn redactor_inv(s: RedactorModel) -> bool {
    &&& s.ids.len() == NAMESPACES
    &&& forall|n: int|
        0 <= n < NAMESPACES ==> dense(#[trigger] s.ids[n]) && s.ids[n].len() <= s.tracked_id_entries
    &&& s.tracked_id_entries == entry_sum(s.ids)
    &&& s.tracked_id_bytes == byte_sum(s.ids)
    &&& s.calls.dom().finite()
    &&& s.calls.len() <= s.limits.max_pending_calls
    &&& s.tracked_id_bytes <= s.limits.max_tracked_id_bytes
    &&& s.tracked_id_entries <= s.limits.max_tracked_id_entries
    &&& s.record_json_nodes <= s.limits.max_json_nodes_per_record
    &&& s.package_json_nodes <= s.limits.max_json_nodes_per_package
}

/// Latches a failure, unless one is latched already.
pub open spec fn latch(s: RedactorModel, error: RolloutDebugRedactorError) -> RedactorModel {
    if s.failure is Some {
        s
    } else {
        RedactorModel { failure: Some(error), ..s }
    }
}

/// Maps an identifier to its local number: the one it has, else the next free
/// one, else (past a limit) zero and a latched failure.
pub open spec fn id_step(s: RedactorModel, namespace: IdNamespace, value: Seq<char>) -> (
    RedactorModel,
    u64,
) {
    let table = ids_in(s, namespace);
    if table.contains_key(value) {
        (s, table[value])
    } else if s.tracked_id_entries + 1 > s.limits.max_tracked_id_entries || s.tracked_id_bytes
        + byte_len(value) > s.limits.max_tracked_id_bytes {
        (latch(s, RolloutDebugRedactorError::ResourceLimitExceeded), 0)
    } else {
        let id = table.len() as u64;
        (
            RedactorModel {
                ids: s.ids.update(table_of(namespace), table.insert(value, id)),
                tracked_id_entries: s.tracked_id_entries + 1,
                tracked_id_bytes: s.tracked_id_bytes + byte_len(value),
                ..s
            },
            id,
        )
    }
}

/// Maps an identifier that may be absent.
pub open spec fn opt_id_step(
    s: RedactorModel,
    namespace: IdNamespace,
    value: Option<Seq<char>>,
) -> (RedactorModel, Option<u64>) {
    match value {
        Some(value) => {
            let step = id_step(s, namespace, value);
            (step.0, Some(step.1))
        },
        None => (s, None),
    }
}

/// Charges a scanned text to the node budgets of the record and the package.
/// The answer is whether the text is JSON within both budgets.
pub open spec fn scan_step(s: RedactorModel, scan: JsonScan) -> (RedactorModel, bool) {
    let record_left = s.limits.max_json_nodes_per_record - s.record_json_nodes;
    let package_left = s.limits.max_json_nodes_per_package - s.package_json_nodes;
    let left = if record_left <= package_left {
        record_left
    } else {
        package_left
    };
    let charged = if scan.nodes <= left {
        scan.nodes as int
    } else {
        left
    };
    let counted = RedactorModel {
        record_json_nodes: (s.record_json_nodes + charged) as nat,
        package_json_nodes: (s.package_json_nodes + charged) as nat,
        ..s
    };
    if scan.nodes > left {
        (latch(counted, RolloutDebugRedactorError::ResourceLimitExceeded), false)
    } else {
        (counted, scan.well_formed)
    }
}

/// Notes a call whose output is awaited.
pub open spec fn remember_step(
    s: RedactorModel,
    call_id: u64,
    tool: DebugToolKind,
    arguments: ToolText,
) -> RedactorModel {
    if s.failure is Some {
        s
    } else if s.calls.contains_key(call_id) {
        latch(s, RolloutDebugRedactorError::AmbiguousCallId)
    } else if s.calls.len() >= s.limits.max_pending_calls {
        latch(s, RolloutDebugRedactorError::ResourceLimitExceeded)
    } else {
        RedactorModel {
            calls: s.calls.insert(
                call_id,
                DebugCallState {
                    tool,
                    spawn_request: if tool is SpineSpawn {
                        request_size(arguments.request, s.carriers.child_input_bytes as nat)
                    } else {
                        None
                    },
                },
            ),
            ..s
        }
    }
}

/// Takes the call that an output answers.
pub open spec fn take_call_step(s: RedactorModel, call_id: Option<u64>) -> (
    RedactorModel,
    Option<DebugCallState>,
) {
    match call_id {
        Some(id) => (
            RedactorModel { calls: s.calls.remove(id), ..s },
            if s.calls.contains_key(id) {
                Some(s.calls[id])
            } else {
                None
            },
        ),
        None => (s, None),
    }
}

/// What is kept of the arguments of a Spine tool, once parsed.
pub open spec fn spine_arguments(
    tool: DebugToolKind,
    parsed: Option<Json>,
    valid_spawn: bool,
) -> ArgumentsModel {
    let object = object_state(parsed);
    let summary = text_shape(field_of(parsed, "summary"@));
    let memory = text_shape(field_of(parsed, "memory"@));
    match tool {
        DebugToolKind::SpineOpen => {
            let unknown = unknown_fields(parsed, seq!["summary"@]);
            ArgumentsModel::Plain(
                DebugToolArguments::Open {
                    object,
                    summary,
                    unknown_fields: unknown,
                    valid: object is Object && summary is NonEmpty && !unknown,
                },
            )
        },
        DebugToolKind::SpineClose => {
            let unknown = unknown_fields(parsed, seq!["memory"@]);
            ArgumentsModel::Plain(
                DebugToolArguments::Close {
                    object,
                    memory,
                    unknown_fields: unknown,
                    valid: object is Object && memory is NonEmpty && !unknown,
                },
            )
        },
        DebugToolKind::SpineNext => {
            let unknown = unknown_fields(parsed, seq!["summary"@, "memory"@]);
            ArgumentsModel::Plain(
                DebugToolArguments::Next {
                    object,
                    summary,
                    memory,
                    unknown_fields: unknown,
                    valid: object is Object && summary is NonEmpty && memory is NonEmpty
                        && !unknown,
                },
            )
        },
        _ => ArgumentsModel::Spawn {
            object,
            tasks: task_shapes(field_of(parsed, "tasks"@)),
            unknown_fields: unknown_fields(parsed, seq!["tasks"@]),
            valid: valid_spawn,
        },
    }
}

/// What is kept of the arguments of a tool call.
pub open spec fn arguments_step(s: RedactorModel, tool: DebugToolKind, arguments: ToolText) -> (
    RedactorModel,
    ArgumentsModel,
) {
    if s.failure is Some {
        (
            s,
            ArgumentsModel::Plain(
                DebugToolArguments::Redacted { shape: DebugJsonValueShape::MalformedJson },
            ),
        )
    } else {
        let scanned = scan_step(s, arguments.scan);
        let parsed = if scanned.1 {
            json_value(encode_utf8(arguments.text@))
        } else {
            None
        };
        if !spine_tool(tool) {
            (
                scanned.0,
                ArgumentsModel::Plain(
                    DebugToolArguments::Redacted {
                        shape: match parsed {
                            Some(value) => value_shape(value),
                            None => DebugJsonValueShape::MalformedJson,
                        },
                    },
                ),
            )
        } else {
            (
                scanned.0,
                spine_arguments(
                    tool,
                    parsed,
                    scanned.1 && request_size(
                        arguments.request,
                        s.carriers.child_input_bytes as nat,
                    ) is Some,
                ),
            )
        }
    }
}

/// What is kept of one result of a spawn receipt.
pub open spec fn result_step(s: RedactorModel, item: Json) -> (
    RedactorModel,
    DebugSpawnResultShape,
) {
    let reference = field_of(Some(item), "execution_ref"@);
    let mapped = opt_id_step(
        s,
        IdNamespace::Execution,
        match text_of(reference) {
            Some(text) => if text.len() > 0 {
                Some(text)
            } else {
                None
            },
            None => None,
        },
    );
    (
        mapped.0,
        DebugSpawnResultShape {
            object: object_state(Some(item)),
            ordinal: number_shape(field_of(Some(item), "ordinal"@)),
            outcome: outcome_shape(field_of(Some(item), "outcome"@)),
            memory_body: text_shape(field_of(Some(item), "memory_body"@)),
            diagnostic: text_shape(field_of(Some(item), "diagnostic"@)),
            execution_ref: DebugMappedString { shape: text_shape(reference), local_id: mapped.1 },
            unknown_fields: unknown_fields(
                Some(item),
                seq!["ordinal"@, "outcome"@, "memory_body"@, "diagnostic"@, "execution_ref"@],
            ),
        },
    )
}

/// What is kept of a list of spawn results, in order.
pub open spec fn results_step(s: RedactorModel, items: Seq<Json>) -> (
    RedactorModel,
    Seq<DebugSpawnResultShape>,
)
    decreases items.len(),
{
    if items.len() == 0 {
        (s, Seq::empty())
    } else {
        let before = results_step(s, items.drop_last());
        let last = result_step(before.0, items.last());
        (last.0, before.1.push(last.1))
    }
}

/// What is kept of the raw output of a spawn call.
pub open spec fn receipt_step(
    s: RedactorModel,
    raw_output: Option<Json>,
    output: ToolOutput,
    request: Option<usize>,
) -> (RedactorModel, ReceiptModel) {
    let scanned = match raw_output {
        Some(Json::Text(text)) => scan_step(s, output.scan),
        _ => (s, true),
    };
    let parsed = match raw_output {
        Some(Json::Text(text)) => if scanned.1 {
            json_value(encode_utf8(text@))
        } else {
            None
        },
        _ => raw_output,
    };
    let results = field_of(parsed, "results"@);
    let listed = results_step(scanned.0, elements(results));
    (
        listed.0,
        ReceiptModel {
            object: object_state(parsed),
            schema: schema_text_shape(field_of(parsed, "schema"@), s.carriers.receipt_schema@),
            results: CollectionModel { shape: collection_shape(results), items: listed.1 },
            unknown_fields: unknown_fields(parsed, seq!["schema"@, "results"@]),
            valid_for_request: parsed is Some && (request matches Some(size)
                && output.receipt_sizes@.contains(size)),
        },
    )
}

/// Whether a body is exactly the text by which a control tool reports success.
pub open spec fn control_success(
    carriers: SpineCarriers,
    tool: DebugToolKind,
    body: OutputBody,
) -> bool {
    match body {
        OutputBody::Text(text) => match tool {
            DebugToolKind::SpineOpen => text@ == carriers.open@,
            DebugToolKind::SpineClose => text@ == carriers.close@,
            DebugToolKind::SpineNext => text@ == carriers.next@,
            _ => false,
        },
        OutputBody::ContentItems(_) => false,
    }
}

/// What is kept of a tool output, given the call that it answers.
pub open spec fn output_step(
    s: RedactorModel,
    state: Option<DebugCallState>,
    output: ToolOutput,
    raw_output: Option<Json>,
) -> (RedactorModel, OutputModel) {
    let body = output_body(output.body);
    match state {
        Some(call) => if call.tool is SpineOpen || call.tool is SpineClose
            || call.tool is SpineNext {
            (
                s,
                OutputModel::Control {
                    exact_success_carrier: control_success(s.carriers, call.tool, output.body),
                    body,
                },
            )
        } else if call.tool is SpineSpawn && s.failure is None {
            let receipt = receipt_step(s, raw_output, output, call.spawn_request);
            (receipt.0, OutputModel::Spawn { receipt: receipt.1 })
        } else {
            (s, OutputModel::Redacted { body })
        },
        None => (s, OutputModel::Redacted { body }),
    }
}

/// Whether every count that a response item carries can be summed.
pub open spec fn countable_item(item: ResponseItem) -> bool {
    match item {
        ResponseItem::WebSearchCall { action, .. } => countable_action(action),
        _ => true,
    }
}

/// What is kept of a response item. `raw` is the item's own JSON.
pub open spec fn item_step(s: RedactorModel, item: ResponseItem, raw: Option<Json>) -> (
    RedactorModel,
    ItemModel,
) {
    match item {
        ResponseItem::AdditionalTools { id, tool_count } => {
            let a = opt_id_step(s, IdNamespace::Item, text_view(id));
            (a.0, ItemModel::Plain(DebugResponseItem::AdditionalTools { id: a.1, tool_count }))
        },
        ResponseItem::Message { id, role, content, phase, turn_id } => {
            let a = opt_id_step(s, IdNamespace::Item, text_view(id));
            let b = opt_id_step(a.0, IdNamespace::Turn, text_view(turn_id));
            (
                b.0,
                ItemModel::Message {
                    id: a.1,
                    role: message_role(role@),
                    phase: optional_phase(phase),
                    content: content_kinds(content@),
                    turn_id: b.1,
                },
            )
        },
        ResponseItem::AgentMessage { id, content, turn_id } => {
            let a = opt_id_step(s, IdNamespace::Item, text_view(id));
            let b = opt_id_step(a.0, IdNamespace::Turn, text_view(turn_id));
            (
                b.0,
                ItemModel::AgentMessage {
                    id: a.1,
                    content: agent_content_kinds(content@),
                    turn_id: b.1,
                },
            )
        },
        ResponseItem::Reasoning { id, summary_count, content, encrypted, turn_id } => {
            let a = opt_id_step(s, IdNamespace::Item, text_view(id));
            let b = opt_id_step(a.0, IdNamespace::Turn, text_view(turn_id));
            (
                b.0,
                ItemModel::Reasoning {
                    id: a.1,
                    summary_count,
                    content: match content {
                        Some(items) => Some(reasoning_content_kinds(items@)),
                        None => None,
                    },
                    encrypted,
                    turn_id: b.1,
                },
            )
        },
        ResponseItem::LocalShellCall {
            id,
            call_id,
            status,
            command_part_count,
            timeout_present,
            working_directory_present,
            environment_entry_count,
            user_present,
            turn_id,
        } => {
            let a = opt_id_step(s, IdNamespace::Item, text_view(id));
            let b = opt_id_step(a.0, IdNamespace::Call, text_view(call_id));
            let c = opt_id_step(b.0, IdNamespace::Turn, text_view(turn_id));
            (
                c.0,
                ItemModel::Plain(
                    DebugResponseItem::LocalShellCall {
                        id: a.1,
                        call_id: b.1,
                        status: shell_status(status),
                        command_part_count,
                        timeout_present,
                        working_directory_present,
                        environment_entry_count,
                        user_present,
                        turn_id: c.1,
                    },
                ),
            )
        },
        ResponseItem::FunctionCall {
            id,
            name,
            namespace,
            code_mode,
            arguments,
            call_id,
            turn_id,
        } => {
            let tool = tool_kind(text_view(namespace), name@, code_mode);
            let a = arguments_step(s, tool, arguments);
            let b = id_step(a.0, IdNamespace::Call, call_id@);
            let c = remember_step(b.0, b.1, tool, arguments);
            let d = opt_id_step(c, IdNamespace::Item, text_view(id));
            let e = opt_id_step(d.0, IdNamespace::Turn, text_view(turn_id));
            (
                e.0,
                ItemModel::FunctionCall {
                    id: d.1,
                    call_id: b.1,
                    tool,
                    arguments: a.1,
                    turn_id: e.1,
                },
            )
        },
        ResponseItem::ToolSearchCall { id, call_id, status_present, arguments, turn_id } => {
            let a = opt_id_step(s, IdNamespace::Item, text_view(id));
            let b = opt_id_step(a.0, IdNamespace::Call, text_view(call_id));
            let c = opt_id_step(b.0, IdNamespace::Turn, text_view(turn_id));
            (
                c.0,
                ItemModel::Plain(
                    DebugResponseItem::ToolSearchCall {
                        id: a.1,
                        call_id: b.1,
                        status_present,
                        arguments: value_shape(arguments),
                        turn_id: c.1,
                    },
                ),
            )
        },
        ResponseItem::FunctionCallOutput { id, call_id, output, turn_id } => {
            let a = opt_id_step(s, IdNamespace::Call, text_view(call_id));
            let b = take_call_step(a.0, a.1);
            let c = output_step(b.0, b.1, output, field_of(raw, "output"@));
            let d = opt_id_step(c.0, IdNamespace::Item, text_view(id));
            let e = opt_id_step(d.0, IdNamespace::Turn, text_view(turn_id));
            (
                e.0,
                ItemModel::FunctionCallOutput {
                    id: d.1,
                    call_id: a.1,
                    output: c.1,
                    turn_id: e.1,
                },
            )
        },
        ResponseItem::CustomToolCall {
            id,
            status_present,
            call_id,
            name,
            namespace,
            code_mode,
            input,
            turn_id,
        } => {
            let tool = tool_kind(text_view(namespace), name@, code_mode);
            let a = arguments_step(s, tool, input);
            let b = id_step(a.0, IdNamespace::Call, call_id@);
            let c = remember_step(b.0, b.1, tool, input);
            let d = opt_id_step(c, IdNamespace::Item, text_view(id));
            let e = opt_id_step(d.0, IdNamespace::Turn, text_view(turn_id));
            (
                e.0,
                ItemModel::CustomToolCall {
                    id: d.1,
                    call_id: b.1,
                    tool,
                    status_present,
                    arguments: a.1,
                    turn_id: e.1,
                },
            )
        },
        ResponseItem::CustomToolCallOutput { id, call_id, name_present, output, turn_id } => {
            let a = id_step(s, IdNamespace::Call, call_id@);
            let b = take_call_step(a.0, Some(a.1));
            let c = output_step(b.0, b.1, output, field_of(raw, "output"@));
            let d = opt_id_step(c.0, IdNamespace::Item, text_view(id));
            let e = opt_id_step(d.0, IdNamespace::Turn, text_view(turn_id));
            (
                e.0,
                ItemModel::CustomToolCallOutput {
                    id: d.1,
                    call_id: a.1,
                    output_name: if name_present {
                        DebugOutputName::Other
                    } else {
                        DebugOutputName::Absent
                    },
                    output: c.1,
                    turn_id: e.1,
                },
            )
        },
        ResponseItem::ToolSearchOutput { id, call_id, tool_count, turn_id } => {
            let a = opt_id_step(s, IdNamespace::Item, text_view(id));
            let b = opt_id_step(a.0, IdNamespace::Call, text_view(call_id));
            let c = opt_id_step(b.0, IdNamespace::Turn, text_view(turn_id));
            (
                c.0,
                ItemModel::Plain(
                    DebugResponseItem::ToolSearchOutput {
                        id: a.1,
                        call_id: b.1,
                        tool_count,
                        turn_id: c.1,
                    },
                ),
            )
        },
        ResponseItem::WebSearchCall { id, status_present, action, turn_id } => {
            let a = opt_id_step(s, IdNamespace::Item, text_view(id));
            let b = opt_id_step(a.0, IdNamespace::Turn, text_view(turn_id));
            (
                b.0,
                ItemModel::Plain(
                    DebugResponseItem::WebSearchCall {
                        id: a.1,
                        status_present,
                        action: optional_web_action(action),
                        turn_id: b.1,
                    },
                ),
            )
        },
        ResponseItem::ImageGenerationCall {
            id,
            revised_prompt_present,
            result_present,
            turn_id,
        } => {
            let a = opt_id_step(s, IdNamespace::Item, text_view(id));
            let b = opt_id_step(a.0, IdNamespace::Turn, text_view(turn_id));
            (
                b.0,
                ItemModel::Plain(
                    DebugResponseItem::ImageGenerationCall {
                        id: a.1,
                        revised_prompt_present,
                        result_present,
                        turn_id: b.1,
                    },
                ),
            )
        },
        ResponseItem::Compaction { id, turn_id } => {
            let a = opt_id_step(s, IdNamespace::Item, text_view(id));
            let b = opt_id_step(a.0, IdNamespace::Turn, text_view(turn_id));
            (b.0, ItemModel::Plain(DebugResponseItem::Compaction { id: a.1, turn_id: b.1 }))
        },
        ResponseItem::CompactionTrigger => (
            s,
            ItemModel::Plain(DebugResponseItem::CompactionTrigger),
        ),
        ResponseItem::ContextCompaction { id, encrypted, turn_id } => {
            let a = opt_id_step(s, IdNamespace::Item, text_view(id));
            let b = opt_id_step(a.0, IdNamespace::Turn, text_view(turn_id));
            (
                b.0,
                ItemModel::Plain(
                    DebugResponseItem::ContextCompaction { id: a.1, encrypted, turn_id: b.1 },
                ),
            )
        },
        ResponseItem::Other => (s, ItemModel::Plain(DebugResponseItem::Other)),
    }
}

/// What is kept of a replacement history, in order. `raws` are the raw items.
pub open spec fn items_step(s: RedactorModel, items: Seq<ResponseItem>, raws: Seq<Json>) -> (
    RedactorModel,
    Seq<ItemModel>,
)
    decreases items.len(),
{
    if items.len() == 0 {
        (s, Seq::empty())
    } else {
        let before = items_step(s, items.drop_last(), raws);
        let at = items.len() - 1;
        let raw = if at < raws.len() {
            Some(raws[at])
        } else {
            None
        };
        let last = item_step(before.0, items.last(), raw);
        (last.0, before.1.push(last.1))
    }
}

/// Maps a list of agent identifiers, in order.
pub open spec fn agents_step(s: RedactorModel, agents: Seq<String>) -> (RedactorModel, Seq<u64>)
    decreases agents.len(),
{
    if agents.len() == 0 {
        (s, Seq::empty())
    } else {
        let before = agents_step(s, agents.drop_last());
        let last = id_step(before.0, IdNamespace::Agent, agents.last()@);
        (last.0, before.1.push(last.1))
    }
}

/// Whether every count that a record carries can be summed.
pub open spec fn countable_record(item: RolloutItem) -> bool {
    match item {
        RolloutItem::ResponseItem(item) => countable_item(item),
        RolloutItem::Compacted { replacement_history: Some(items), .. } => forall|i: int|
            0 <= i < items@.len() ==> countable_item(#[trigger] items@[i]),
        _ => true,
    }
}

/// What is kept of a record. `raw` is the record's raw payload.
pub open spec fn record_step(s: RedactorModel, item: RolloutItem, raw: Option<Json>) -> (
    RedactorModel,
    RecordModel,
) {
    match item {
        RolloutItem::SessionMeta {
            session_id,
            thread_id,
            forked_from_id,
            parent_thread_id,
            context_window_id,
            dynamic_tool_count,
            capability_root_count,
        } => {
            let a = id_step(s, IdNamespace::Session, session_id@);
            let b = id_step(a.0, IdNamespace::Thread, thread_id@);
            let c = opt_id_step(b.0, IdNamespace::Thread, text_view(forked_from_id));
            let d = opt_id_step(c.0, IdNamespace::Thread, text_view(parent_thread_id));
            let e = opt_id_step(d.0, IdNamespace::Window, text_view(context_window_id));
            (
                e.0,
                RecordModel::Plain(
                    DebugRolloutRecord::SessionMeta {
                        session_id: a.1,
                        thread_id: b.1,
                        forked_from_thread_id: c.1,
                        parent_thread_id: d.1,
                        context_window_id: e.1,
                        dynamic_tool_count: match dynamic_tool_count {
                            Some(count) => count,
                            None => 0,
                        },
                        capability_root_count,
                    },
                ),
            )
        },
        RolloutItem::ResponseItem(item) => {
            let a = item_step(s, item, raw);
            (a.0, RecordModel::ResponseItem { item: a.1 })
        },
        RolloutItem::InterAgentCommunication {
            id,
            author,
            recipient,
            other_recipients,
            trigger_turn,
            encrypted,
            turn_id,
        } => {
            let a = opt_id_step(s, IdNamespace::Item, text_view(id));
            let b = id_step(a.0, IdNamespace::Agent, author@);
            let c = id_step(b.0, IdNamespace::Agent, recipient@);
            let d = agents_step(c.0, other_recipients@);
            let e = opt_id_step(d.0, IdNamespace::Turn, text_view(turn_id));
            (
                e.0,
                RecordModel::InterAgentCommunication {
                    id: a.1,
                    author: b.1,
                    recipient: c.1,
                    other_recipients: d.1,
                    trigger_turn,
                    encrypted,
                    turn_id: e.1,
                },
            )
        },
        RolloutItem::InterAgentCommunicationMetadata { trigger_turn } => (
            s,
            RecordModel::Plain(
                DebugRolloutRecord::InterAgentCommunicationMetadata { trigger_turn },
            ),
        ),
        RolloutItem::Compacted {
            replacement_history,
            window_number,
            first_window_id,
            previous_window_id,
            window_id,
        } => {
            let a = match replacement_history {
                Some(items) => {
                    let step = items_step(
                        s,
                        items@,
                        elements(field_of(raw, "replacement_history"@)),
                    );
                    (step.0, Some(step.1))
                },
                None => (s, None),
            };
            let b = opt_id_step(a.0, IdNamespace::Window, text_view(first_window_id));
            let c = opt_id_step(b.0, IdNamespace::Window, text_view(previous_window_id));
            let d = opt_id_step(c.0, IdNamespace::Window, text_view(window_id));
            (
                d.0,
                RecordModel::Compacted {
                    replacement_history: a.1,
                    window_number,
                    first_window_id: b.1,
                    previous_window_id: c.1,
                    window_id: d.1,
                },
            )
        },
        RolloutItem::TurnContext { turn_id, workspace_root_count, realtime_active } => {
            let a = opt_id_step(s, IdNamespace::Turn, text_view(turn_id));
            (
                a.0,
                RecordModel::Plain(
                    DebugRolloutRecord::TurnContext {
                        turn_id: a.1,
                        workspace_root_count,
                        realtime_active,
                    },
                ),
            )
        },
        RolloutItem::WorldState { full } => (
            s,
            RecordModel::Plain(DebugRolloutRecord::WorldState { full }),
        ),
        RolloutItem::EventMsg(event) => (s, RecordModel::Event { event: event_shape(event) }),
        RolloutItem::TokenUsageRecord { usage } => (
            s,
            RecordModel::Plain(
                DebugRolloutRecord::TokenUsageRecord { usage: token_usage_shape(usage) },
            ),
        ),
        RolloutItem::SecurityRiskScore => (
            s,
            RecordModel::Plain(DebugRolloutRecord::SecurityRiskScore),
        ),
        RolloutItem::RealtimeItem => (s, RecordModel::Plain(DebugRolloutRecord::RealtimeItem)),
        RolloutItem::SpineSamplingStarted | RolloutItem::SpineTransition => (
            s,
            unknown_record(DebugPlaceholderScope::TopLevel),
        ),
    }
}

pub open spec fn unknown_record(scope: DebugPlaceholderScope) -> RecordModel {
    RecordModel::Plain(DebugRolloutRecord::UnknownRedacted { scope })
}

pub open spec fn malformed_record(scope: DebugPlaceholderScope) -> RecordModel {
    RecordModel::Plain(DebugRolloutRecord::MalformedRedacted { scope })
}

/// What is kept of a parsed line. `decoded` is the native record that the line
/// decodes to, where it does.
pub open spec fn value_step(s: RedactorModel, raw: Json, decoded: Option<RolloutItem>) -> (
    RedactorModel,
    RecordModel,
) {
    let top_type = text_of(field_of(Some(raw), "type"@));
    let payload = field_of(Some(raw), "payload"@);
    let payload_type = text_of(field_of(payload, "type"@));
    if !(raw is Object) {
        (s, malformed_record(DebugPlaceholderScope::TopLevel))
    } else if top_type matches Some(kind) && !known_rollout_item_type(kind) {
        (s, unknown_record(DebugPlaceholderScope::TopLevel))
    } else if top_type == Some("response_item"@) && (payload_type matches Some(kind)
        && !known_response_item_type(kind)) {
        (s, unknown_record(DebugPlaceholderScope::ResponseItem))
    } else if top_type == Some("event_msg"@) && (payload_type matches Some(kind)
        && !known_event_type(kind)) {
        (s, unknown_record(DebugPlaceholderScope::Event))
    } else {
        match decoded {
            Some(item) => record_step(s, item, payload),
            None => (
                s,
                malformed_record(
                    if top_type == Some("response_item"@) {
                        DebugPlaceholderScope::ResponseItem
                    } else if top_type == Some("event_msg"@) {
                        DebugPlaceholderScope::Event
                    } else {
                        DebugPlaceholderScope::TopLevel
                    },
                ),
            ),
        }
    }
}

/// What is kept of one source line, with its node count charged first.
pub open spec fn line_step(
    s: RedactorModel,
    line: Seq<u8>,
    scan: JsonScan,
    decoded: Option<RolloutItem>,
) -> (RedactorModel, RecordModel) {
    let scanned = scan_step(RedactorModel { record_json_nodes: 0, ..s }, scan);
    if !scanned.1 {
        (scanned.0, malformed_record(DebugPlaceholderScope::Line))
    } else {
        match json_value(line) {
            Some(raw) => value_step(scanned.0, raw, decoded),
            None => (scanned.0, malformed_record(DebugPlaceholderScope::Line)),
        }
    }
}

/// What comes of one source line: a latched failure is all that comes of any
/// line, also of the one that latched it.
pub open spec fn outcome_step(
    s: RedactorModel,
    line: Seq<u8>,
    scan: JsonScan,
    decoded: Option<RolloutItem>,
) -> (RedactorModel, Result<RecordModel, RolloutDebugRedactorError>) {
    match s.failure {
        Some(error) => (s, Err(error)),
        None => {
            let step = line_step(s, line, scan, decoded);
            (
                step.0,
                match step.0.failure {
                    Some(error) => Err(error),
                    None => Ok(step.1),
                },
            )
        },
    }
}

impl View for RolloutDebugRedactor {
    type V = RedactorModel;

    closed spec fn view(&self) -> RedactorModel {
        RedactorModel {
            ids: self.ids@.map_values(|table: StringHashMap<u64>| table@),
            calls: self.calls@,
            tracked_id_bytes: self.tracked_id_bytes as nat,
            tracked_id_entries: self.tracked_id_entries as nat,
            record_json_nodes: self.record_json_nodes as nat,
            package_json_nodes: self.package_json_nodes as nat,
            limits: self.limits,
            carriers: self.carriers,
            failure: self.failure,
        }
    }
}

/// The state of a redactor that has seen nothing.
pub open spec fn fresh(limits: RedactorLimits, carriers: SpineCarriers) -> RedactorModel {
    RedactorModel {
        ids: Seq::new(NAMESPACES as nat, |n: int| Map::<Seq<char>, u64>::empty()),
        calls: Map::empty(),
        tracked_id_bytes: 0,
        tracked_id_entries: 0,
        record_json_nodes: 0,
        package_json_nodes: 0,
        limits,
        carriers,
        failure: None,
    }
}

impl RolloutDebugRedactor {
    /// What every redactor keeps: see [`redactor_inv`].
    pub open spec fn wf(&self) -> bool {
        redactor_inv(self@)
    }

    /// A redactor that has seen nothing, with the default limits.
    pub fn new(carriers: SpineCarriers) -> (r: Self)
        ensures
            r.wf(),
            r@ == fresh(default_limits(), carriers),
    {
        Self::limited(RedactorLimits::default(), carriers)
    }

    /// A redactor with its own identifier and call limits.
    pub fn with_limits(
        max_tracked_id_bytes: usize,
        max_tracked_id_entries: usize,
        max_pending_calls: usize,
        carriers: SpineCarriers,
    ) -> (r: Self)
        ensures
            r.wf(),
            r@ == fresh(
                (RedactorLimits {
                    max_tracked_id_bytes,
                    max_tracked_id_entries,
                    max_pending_calls,
                    ..default_limits()
                }),
                carriers,
            ),
    {
        let limits = RedactorLimits {
            max_tracked_id_bytes,
            max_tracked_id_entries,
            max_pending_calls,
            max_json_nodes_per_record: DEFAULT_MAX_JSON_NODES_PER_RECORD,
            max_json_nodes_per_package: DEFAULT_MAX_JSON_NODES_PER_PACKAGE,
        };
        Self::limited(limits, carriers)
    }

    /// A redactor with its own JSON node limits.
    pub fn with_json_node_limits(
        max_json_nodes_per_record: usize,
        max_json_nodes_per_package: usize,
        carriers: SpineCarriers,
    ) -> (r: Self)
        ensures
            r.wf(),
            r@ == fresh(
                (RedactorLimits {
                    max_json_nodes_per_record,
                    max_json_nodes_per_package,
                    ..default_limits()
                }),
                carriers,
            ),
    {
        let limits = RedactorLimits {
            max_tracked_id_bytes: DEFAULT_MAX_TRACKED_ID_BYTES,
            max_tracked_id_entries: DEFAULT_MAX_TRACKED_ID_ENTRIES,
            max_pending_calls: DEFAULT_MAX_PENDING_CALLS,
            max_json_nodes_per_record,
            max_json_nodes_per_package,
        };
        Self::limited(limits, carriers)
    }

    fn limited(limits: RedactorLimits, carriers: SpineCarriers) -> (r: Self)
        ensures
            r.wf(),
            r@ == fresh(limits, carriers),
    {
        let mut ids: Vec<StringHashMap<u64>> = Vec::new();
        let mut n: usize = 0;
        while n < NAMESPACES
            invariant
                n <= NAMESPACES,
                ids@.len() == n,
                forall|k: int| 0 <= k < n ==> (#[trigger] ids@[k])@ == Map::<Seq<char>, u64>::empty(),
            decreases NAMESPACES - n,
        {
            ids.push(StringHashMap::new());
            n = n + 1;
        }
        let r = RolloutDebugRedactor {
            ids,
            calls: BTreeMap::new(),
            tracked_id_bytes: 0,
            tracked_id_entries: 0,
            record_json_nodes: 0,
            package_json_nodes: 0,
            limits,
            carriers,
            failure: None,
        };
        proof {
            assert(r@.ids =~= fresh(limits, carriers).ids);
            lemma_sums_empty(r@.ids);
            assert(r@.calls =~= fresh(limits, carriers).calls);
        }
        r
    }

    /// The latched failure, as an error.
    pub fn ensure_within_limits(&self) -> (r: Result<(), RolloutDebugRedactorError>)
        ensures
            r == (match self@.failure {
                Some(error) => Err::<(), RolloutDebugRedactorError>(error),
                None => Ok(()),
            }),
    {
        match self.failure {
            Some(error) => Err(error),
            None => Ok(()),
        }
    }

    fn mark_resource_limit_exceeded(&mut self)
        ensures
            final(self)@ == latch(old(self)@, RolloutDebugRedactorError::ResourceLimitExceeded),
    {
        if self.failure.is_none() {
            self.failure = Some(RolloutDebugRedactorError::ResourceLimitExceeded);
        }
    }

    fn mark_ambiguous_call_id(&mut self)
        ensures
            final(self)@ == latch(old(self)@, RolloutDebugRedactorError::AmbiguousCallId),
    {
        if self.failure.is_none() {
            self.failure = Some(RolloutDebugRedactorError::AmbiguousCallId);
        }
    }

    fn begin_record(&mut self)
        ensures
            final(self)@ == (RedactorModel { record_json_nodes: 0, ..old(self)@ }),
    {
        self.record_json_nodes = 0;
    }

    /// Charges one scanned JSON text before its value tree is built.
    fn preflight_json(&mut self, scan: JsonScan) -> (r: bool)
        requires
            old(self).wf(),
        ensures
            final(self).wf(),
            (final(self)@, r) == scan_step(old(self)@, scan),
    {
        let record_remaining: usize = self.limits.max_json_nodes_per_record
            - self.record_json_nodes;
        let package_remaining: usize = self.limits.max_json_nodes_per_package
            - self.package_json_nodes;
        let remaining: usize = if record_remaining <= package_remaining {
            record_remaining
        } else {
            package_remaining
        };
        let exceeded = scan.nodes > remaining;
        let consumed: usize = if exceeded {
            remaining
        } else {
            scan.nodes
        };
        self.record_json_nodes = self.record_json_nodes + consumed;
        self.package_json_nodes = self.package_json_nodes + consumed;
        if exceeded {
            self.mark_resource_limit_exceeded();
            return false;
        }
        scan.well_formed
    }

    fn local_id(&mut self, namespace: IdNamespace, value: &str) -> (r: u64)
        requires
            old(self).wf(),
        ensures
            final(self).wf(),
            (final(self)@, r) == id_step(old(self)@, namespace, value@),
    {
        let table = namespace.table();
        assert(self@.ids[table as int] == self.ids@[table as int]@);
        if let Some(id) = self.ids[table].get(value) {
            return *id;
        }
        let size = byte_size(value);
        if self.tracked_id_entries >= self.limits.max_tracked_id_entries || size
            > self.limits.max_tracked_id_bytes - self.tracked_id_bytes {
            self.mark_resource_limit_exceeded();
            return 0;
        }
        let id = self.ids[table].len() as u64;
        let ghost before = self@;
        self.ids[table].insert(value.to_owned(), id);
        self.tracked_id_entries = self.tracked_id_entries + 1;
        self.tracked_id_bytes = self.tracked_id_bytes + size;
        proof {
            let ghost after = id_step(before, namespace, value@).0;
            lemma_dense_insert(before.ids[table as int], value@, id);
            lemma_sums_insert(before.ids, table as int, value@, id);
            assert(self@.ids =~= after.ids);
        }
        id
    }

    fn optional_local_id(&mut self, namespace: IdNamespace, value: &Option<String>) -> (r: Option<
        u64,
    >)
        requires
            old(self).wf(),
        ensures
            final(self).wf(),
            (final(self)@, r) == opt_id_step(old(self)@, namespace, text_view(*value)),
    {
        match value {
            Some(value) => Some(self.local_id(namespace, value.as_str())),
            None => None,
        }
    }

    /// Reserve the package-local thread identifier used by the bundle manifest.
    pub fn register_thread_id(&mut self, thread_id: &str) -> (r: Result<
        u64,
        RolloutDebugRedactorError,
    >)
        requires
            old(self).wf(),
        ensures
            final(self).wf(),
            match old(self)@.failure {
                Some(error) => final(self)@ == old(self)@ && r
                    == Err::<u64, RolloutDebugRedactorError>(error),
                None => {
                    let step = id_step(old(self)@, IdNamespace::Thread, thread_id@);
                    &&& final(self)@ == step.0
                    &&& r == (match step.0.failure {
                        Some(error) => Err::<u64, RolloutDebugRedactorError>(error),
                        None => Ok(step.1),
                    })
                },
            },
    {
        if let Some(error) = self.failure {
            return Err(error);
        }
        let local_id = self.local_id(IdNamespace::Thread, thread_id);
        if let Some(error) = self.failure {
            return Err(error);
        }
        Ok(local_id)
    }

    fn remember_call(&mut self, local_call_id: u64, tool: DebugToolKind, arguments: &ToolText)
        requires
            old(self).wf(),
        ensures
            final(self).wf(),
            final(self)@ == remember_step(old(self)@, local_call_id, tool, *arguments),
    {
        if self.failure.is_some() {
            return ;
        }
        if self.calls.contains_key(&local_call_id) {
            self.mark_ambiguous_call_id();
            return ;
        }
        let spawn_request = if tool == DebugToolKind::SpineSpawn {
            requested_tasks(&arguments.request, self.carriers.child_input_bytes)
        } else {
            None
        };
        if self.calls.len() >= self.limits.max_pending_calls {
            self.mark_resource_limit_exceeded();
            return ;
        }
        self.calls.insert(local_call_id, DebugCallState { tool, spawn_request });
    }
}

proof fn lemma_key_bytes_remove(ids: Map<Seq<char>, u64>, id: Seq<char>)
    requires
        ids.dom().finite(),
        ids.contains_key(id),
    ensures
        key_bytes(ids) == byte_len(id) + key_bytes(ids.remove(id)),
    decreases ids.dom().len(),
{
    let chosen = ids.dom().choose();
    assert(ids.dom().contains(id));
    assert(ids.dom().contains(chosen));
    if chosen != id {
        lemma_key_bytes_remove(ids.remove(chosen), id);
        lemma_key_bytes_remove(ids.remove(id), chosen);
        assert(ids.remove(chosen).remove(id) =~= ids.remove(id).remove(chosen));
    }
}

proof fn lemma_sums_update(
    tables: Seq<Map<Seq<char>, u64>>,
    at: int,
    table: Map<Seq<char>, u64>,
)
    requires
        0 <= at < tables.len(),
    ensures
        entry_sum(tables.update(at, table)) + tables[at].len() == entry_sum(tables) + table.len(),
        byte_sum(tables.update(at, table)) + key_bytes(tables[at]) == byte_sum(tables) + key_bytes(
            table,
        ),
    decreases tables.len(),
{
    reveal_with_fuel(entry_sum, 2);
    reveal_with_fuel(byte_sum, 2);
    let updated = tables.update(at, table);
    if at == tables.len() - 1 {
        assert(updated.drop_last() =~= tables.drop_last());
    } else {
        lemma_sums_update(tables.drop_last(), at, table);
        assert(updated.drop_last() =~= tables.drop_last().update(at, table));
    }
}

/// A new identifier adds one entry, and its own bytes.
pub proof fn lemma_sums_insert(
    tables: Seq<Map<Seq<char>, u64>>,
    at: int,
    value: Seq<char>,
    id: u64,
)
    requires
        0 <= at < tables.len(),
        tables[at].dom().finite(),
        !tables[at].contains_key(value),
    ensures
        entry_sum(tables.update(at, tables[at].insert(value, id))) == entry_sum(tables) + 1,
        byte_sum(tables.update(at, tables[at].insert(value, id))) == byte_sum(tables) + byte_len(
            value,
        ),
{
    let grown = tables[at].insert(value, id);
    assert(grown.remove(value) =~= tables[at]);
    lemma_key_bytes_remove(grown, value);
    lemma_sums_update(tables, at, grown);
    assert(grown.dom() =~= tables[at].dom().insert(value));
}

/// Empty tables hold nothing.
pub proof fn lemma_sums_empty(tables: Seq<Map<Seq<char>, u64>>)
    requires
        forall|n: int| 0 <= n < tables.len() ==> #[trigger] tables[n] == Map::<Seq<char>, u64>::empty(),
    ensures
        entry_sum(tables) == 0,
        byte_sum(tables) == 0,
    decreases tables.len(),
{
    reveal_with_fuel(entry_sum, 2);
    reveal_with_fuel(byte_sum, 2);
    if tables.len() > 0 {
        assert(tables.last() == tables[tables.len() - 1]);
        assert forall|n: int| 0 <= n < tables.drop_last().len() implies #[trigger] tables.drop_last()[n]
            == Map::<Seq<char>, u64>::empty() by {
            assert(tables[n] == Map::<Seq<char>, u64>::empty());
        }
        lemma_sums_empty(tables.drop_last());
    }
}

pub proof fn lemma_dense_insert(ids: Map<Seq<char>, u64>, value: Seq<char>, id: u64)
    requires
        dense(ids),
        !ids.contains_key(value),
        id == ids.len(),
    ensures
        dense(ids.insert(value, id)),
        ids.insert(value, id).len() == ids.len() + 1,
{
    let after = ids.insert(value, id);
    assert(after.dom() =~= ids.dom().insert(value));
    assert(after.len() == ids.len() + 1);
    assert forall|k: Seq<char>| #[trigger] after.contains_key(k) implies after[k] < after.len() by {
        if k != value {
            assert(ids.contains_key(k));
        }
    }
    assert forall|k1: Seq<char>, k2: Seq<char>|
        after.contains_key(k1) && after.contains_key(k2) && #[trigger] after[k1]
            == #[trigger] after[k2] implies k1 == k2 by {
        if k1 != value {
            assert(ids.contains_key(k1));
        }
        if k2 != value {
            assert(ids.contains_key(k2));
        }
    }
}


/// The element at a position, where the value is a list that long.
fn element<'a>(value: Option<&'a Json>, at: usize) -> (r: Option<&'a Json>)
    ensures
        deref_option(r) == (if at < elements(deref_option(value)).len() {
            Some(elements(deref_option(value))[at as int])
        } else {
            None
        }),
{
    match value {
        Some(Json::Array(items)) => {
            if at < items.len() {
                Some(&items[at])
            } else {
                None
            }
        },
        _ => None,
    }
}

fn contains_size(sizes: &Vec<usize>, size: usize) -> (r: bool)
    ensures
        r == sizes@.contains(size),
{
    let mut i: usize = 0;
    while i < sizes.len()
        invariant
            i <= sizes@.len(),
            forall|j: int| 0 <= j < i ==> sizes@[j] != size,
        decreases sizes@.len() - i,
    {
        if sizes[i] == size {
            return true;
        }
        i = i + 1;
    }
    false
}

impl RolloutDebugRedactor {
    fn redact_tool_arguments(&mut self, tool: DebugToolKind, arguments: &ToolText) -> (r:
        DebugToolArguments)
        requires
            old(self).wf(),
        ensures
            final(self).wf(),
            (final(self)@, r@) == arguments_step(old(self)@, tool, *arguments),
    {
        if self.failure.is_some() {
            return DebugToolArguments::Redacted { shape: DebugJsonValueShape::MalformedJson };
        }
        let valid_json = self.preflight_json(arguments.scan);
        let parsed = if valid_json {
            parse_json(arguments.text.as_str().as_bytes())
        } else {
            None
        };
        let value = parsed.as_ref();
        assert(deref_option(value) == parsed);
        if !tool.is_spine() {
            let shape = match value {
                Some(value) => json_value_shape(value),
                None => DebugJsonValueShape::MalformedJson,
            };
            return DebugToolArguments::Redacted { shape };
        }
        let object = object_shape(value);
        match tool {
            DebugToolKind::SpineOpen => {
                let allowed = ["summary"];
                assert(name_views(allowed@) =~= seq!["summary"@]);
                let summary = string_shape(field(value, "summary"));
                let unknown = has_unknown_fields(value, &allowed);
                DebugToolArguments::Open {
                    object,
                    summary,
                    unknown_fields: unknown,
                    valid: object == DebugObjectState::Object && summary.is_non_empty() && !unknown,
                }
            },
            DebugToolKind::SpineClose => {
                let allowed = ["memory"];
                assert(name_views(allowed@) =~= seq!["memory"@]);
                let memory = string_shape(field(value, "memory"));
                let unknown = has_unknown_fields(value, &allowed);
                DebugToolArguments::Close {
                    object,
                    memory,
                    unknown_fields: unknown,
                    valid: object == DebugObjectState::Object && memory.is_non_empty() && !unknown,
                }
            },
            DebugToolKind::SpineNext => {
                let allowed = ["summary", "memory"];
                assert(name_views(allowed@) =~= seq!["summary"@, "memory"@]);
                let summary = string_shape(field(value, "summary"));
                let memory = string_shape(field(value, "memory"));
                let unknown = has_unknown_fields(value, &allowed);
                DebugToolArguments::Next {
                    object,
                    summary,
                    memory,
                    unknown_fields: unknown,
                    valid: object == DebugObjectState::Object && summary.is_non_empty()
                        && memory.is_non_empty() && !unknown,
                }
            },
            _ => {
                let allowed = ["tasks"];
                assert(name_views(allowed@) =~= seq!["tasks"@]);
                DebugToolArguments::Spawn {
                    object,
                    tasks: inspect_spawn_tasks(field(value, "tasks")),
                    unknown_fields: has_unknown_fields(value, &allowed),
                    valid: valid_json && requested_tasks(
                        &arguments.request,
                        self.carriers.child_input_bytes,
                    ).is_some(),
                }
            },
        }
    }

    fn mapped_string(&mut self, namespace: IdNamespace, value: Option<&Json>) -> (r:
        DebugMappedString)
        requires
            old(self).wf(),
        ensures
            final(self).wf(),
            ({
                let text = text_of(deref_option(value));
                let step = opt_id_step(
                    old(self)@,
                    namespace,
                    match text {
                        Some(text) => if text.len() > 0 {
                            Some(text)
                        } else {
                            None
                        },
                        None => None,
                    },
                );
                &&& final(self)@ == step.0
                &&& r.shape == text_shape(deref_option(value))
                &&& r.local_id == step.1
            }),
    {
        let shape = string_shape(value);
        let local_id = match text_value(value) {
            Some(text) => {
                if text.is_empty() {
                    None
                } else {
                    Some(self.local_id(namespace, text))
                }
            },
            None => None,
        };
        DebugMappedString { shape, local_id }
    }

    fn inspect_spawn_result(&mut self, item: &Json) -> (r: DebugSpawnResultShape)
        requires
            old(self).wf(),
        ensures
            final(self).wf(),
            (final(self)@, r) == result_step(old(self)@, *item),
    {
        let allowed = ["ordinal", "outcome", "memory_body", "diagnostic", "execution_ref"];
        assert(name_views(allowed@)
            =~= seq!["ordinal"@, "outcome"@, "memory_body"@, "diagnostic"@, "execution_ref"@]);
        DebugSpawnResultShape {
            object: object_shape(Some(item)),
            ordinal: unsigned_shape(field(Some(item), "ordinal")),
            outcome: spawn_outcome_shape(field(Some(item), "outcome")),
            memory_body: string_shape(field(Some(item), "memory_body")),
            diagnostic: string_shape(field(Some(item), "diagnostic")),
            execution_ref: self.mapped_string(
                IdNamespace::Execution,
                field(Some(item), "execution_ref"),
            ),
            unknown_fields: has_unknown_fields(Some(item), &allowed),
        }
    }

    fn inspect_spawn_results(&mut self, value: Option<&Json>) -> (r: DebugCollection<
        DebugSpawnResultShape,
    >)
        requires
            old(self).wf(),
        ensures
            final(self).wf(),
            ({
                let step = results_step(old(self)@, elements(deref_option(value)));
                &&& final(self)@ == step.0
                &&& r@ == (CollectionModel {
                    shape: collection_shape(deref_option(value)),
                    items: step.1,
                })
            }),
    {
        match value {
            None => missing_collection(),
            Some(Json::Array(items)) => {
                let mut out: Vec<DebugSpawnResultShape> = Vec::new();
                let mut i: usize = 0;
                proof {
                    assert(items@.take(0) =~= Seq::empty());
                }
                while i < items.len()
                    invariant
                        i <= items@.len(),
                        self.wf(),
                        (self@, out@) == results_step(old(self)@, items@.take(i as int)),
                    decreases items@.len() - i,
                {
                    let shape = self.inspect_spawn_result(&items[i]);
                    out.push(shape);
                    proof {
                        let upto = items@.take(i + 1);
                        assert(upto.drop_last() =~= items@.take(i as int));
                        assert(upto.last() == items@[i as int]);
                    }
                    i = i + 1;
                }
                assert(items@.take(i as int) =~= items@);
                DebugCollection { shape: DebugCollectionShape::Array, items: out }
            },
            Some(Json::Null) => DebugCollection {
                shape: DebugCollectionShape::Null,
                items: Vec::new(),
            },
            Some(_) => DebugCollection {
                shape: DebugCollectionShape::WrongType,
                items: Vec::new(),
            },
        }
    }

    fn describe_receipt(
        &mut self,
        parsed: Option<&Json>,
        output: &ToolOutput,
        request: Option<usize>,
    ) -> (r: DebugSpawnReceiptShape)
        requires
            old(self).wf(),
        ensures
            final(self).wf(),
            ({
                let value = deref_option(parsed);
                let results = field_of(value, "results"@);
                let listed = results_step(old(self)@, elements(results));
                &&& final(self)@ == listed.0
                &&& r@ == (ReceiptModel {
                    object: object_state(value),
                    schema: schema_text_shape(
                        field_of(value, "schema"@),
                        old(self)@.carriers.receipt_schema@,
                    ),
                    results: CollectionModel { shape: collection_shape(results), items: listed.1 },
                    unknown_fields: unknown_fields(value, seq!["schema"@, "results"@]),
                    valid_for_request: value is Some && (request matches Some(size)
                        && output.receipt_sizes@.contains(size)),
                })
            }),
    {
        let allowed = ["schema", "results"];
        assert(name_views(allowed@) =~= seq!["schema"@, "results"@]);
        let object = object_shape(parsed);
        let schema = schema_shape(field(parsed, "schema"), self.carriers.receipt_schema.as_str());
        let results = self.inspect_spawn_results(field(parsed, "results"));
        let valid_for_request = match request {
            Some(size) => parsed.is_some() && contains_size(&output.receipt_sizes, size),
            None => false,
        };
        DebugSpawnReceiptShape {
            object,
            schema,
            results,
            unknown_fields: has_unknown_fields(parsed, &allowed),
            valid_for_request,
        }
    }

    fn inspect_spawn_receipt(
        &mut self,
        raw_output: Option<&Json>,
        output: &ToolOutput,
        request: Option<usize>,
    ) -> (r: DebugSpawnReceiptShape)
        requires
            old(self).wf(),
        ensures
            final(self).wf(),
            (final(self)@, r@) == receipt_step(
                old(self)@,
                deref_option(raw_output),
                *output,
                request,
            ),
    {
        match raw_output {
            Some(Json::Text(text)) => {
                let valid = self.preflight_json(output.scan);
                let parsed = if valid {
                    parse_json(text.as_str().as_bytes())
                } else {
                    None
                };
                let value = parsed.as_ref();
                assert(deref_option(value) == parsed);
                self.describe_receipt(value, output, request)
            },
            _ => self.describe_receipt(raw_output, output, request),
        }
    }

    fn is_exact_control_success(&self, tool: DebugToolKind, body: &OutputBody) -> (r: bool)
        ensures
            r == control_success(self@.carriers, tool, *body),
    {
        match body {
            OutputBody::Text(text) => match tool {
                DebugToolKind::SpineOpen => same_text(text.as_str(), self.carriers.open.as_str()),
                DebugToolKind::SpineClose => same_text(text.as_str(), self.carriers.close.as_str()),
                DebugToolKind::SpineNext => same_text(text.as_str(), self.carriers.next.as_str()),
                _ => false,
            },
            OutputBody::ContentItems(_) => false,
        }
    }

    fn redact_tool_output(
        &mut self,
        state: Option<DebugCallState>,
        output: &ToolOutput,
        raw_output: Option<&Json>,
    ) -> (r: DebugToolOutput)
        requires
            old(self).wf(),
        ensures
            final(self).wf(),
            (final(self)@, r@) == output_step(
                old(self)@,
                state,
                *output,
                deref_option(raw_output),
            ),
    {
        let body = debug_output_body(&output.body);
        match state {
            Some(call) => match call.tool {
                DebugToolKind::SpineOpen | DebugToolKind::SpineClose | DebugToolKind::SpineNext => {
                    DebugToolOutput::Control {
                        exact_success_carrier: self.is_exact_control_success(
                            call.tool,
                            &output.body,
                        ),
                        body,
                    }
                },
                DebugToolKind::SpineSpawn => {
                    if self.failure.is_some() {
                        DebugToolOutput::Redacted { body }
                    } else {
                        DebugToolOutput::Spawn {
                            receipt: self.inspect_spawn_receipt(
                                raw_output,
                                output,
                                call.spawn_request,
                            ),
                        }
                    }
                },
                _ => DebugToolOutput::Redacted { body },
            },
            None => DebugToolOutput::Redacted { body },
        }
    }

    fn take_call(&mut self, call_id: Option<u64>) -> (r: Option<DebugCallState>)
        requires
            old(self).wf(),
        ensures
            final(self).wf(),
            (final(self)@, r) == take_call_step(old(self)@, call_id),
    {
        match call_id {
            Some(id) => {
                let ghost before = self@.calls;
                let state = self.calls.remove(&id);
                proof {
                    if !before.contains_key(id) {
                        assert(before.remove(id) =~= before);
                    }
                }
                state
            },
            None => None,
        }
    }

    /// Erases the content of a response item. `raw` is the item's own JSON.
    pub fn redact_response_item(&mut self, item: &ResponseItem, raw: Option<&Json>) -> (r:
        DebugResponseItem)
        requires
            old(self).wf(),
            countable_item(*item),
        ensures
            final(self).wf(),
            (final(self)@, r@) == item_step(old(self)@, *item, deref_option(raw)),
    {
        match item {
            ResponseItem::AdditionalTools { id, tool_count } => {
                let id = self.optional_local_id(IdNamespace::Item, id);
                DebugResponseItem::AdditionalTools { id, tool_count: *tool_count }
            },
            ResponseItem::Message { id, role, content, phase, turn_id } => {
                let id = self.optional_local_id(IdNamespace::Item, id);
                let turn_id = self.optional_local_id(IdNamespace::Turn, turn_id);
                DebugResponseItem::Message {
                    id,
                    role: debug_message_role(role.as_str()),
                    phase: debug_message_phase(*phase),
                    content: debug_content_kinds(content),
                    turn_id,
                }
            },
            ResponseItem::AgentMessage { id, content, turn_id } => {
                let id = self.optional_local_id(IdNamespace::Item, id);
                let turn_id = self.optional_local_id(IdNamespace::Turn, turn_id);
                DebugResponseItem::AgentMessage {
                    id,
                    content: debug_agent_content_kinds(content),
                    turn_id,
                }
            },
            ResponseItem::Reasoning { id, summary_count, content, encrypted, turn_id } => {
                let id = self.optional_local_id(IdNamespace::Item, id);
                let turn_id = self.optional_local_id(IdNamespace::Turn, turn_id);
                let content = match content {
                    Some(items) => Some(debug_reasoning_content_kinds(items)),
                    None => None,
                };
                DebugResponseItem::Reasoning {
                    id,
                    summary_count: *summary_count,
                    content,
                    encrypted: *encrypted,
                    turn_id,
                }
            },
            ResponseItem::LocalShellCall {
                id,
                call_id,
                status,
                command_part_count,
                timeout_present,
                working_directory_present,
                environment_entry_count,
                user_present,
                turn_id,
            } => {
                let id = self.optional_local_id(IdNamespace::Item, id);
                let call_id = self.optional_local_id(IdNamespace::Call, call_id);
                let turn_id = self.optional_local_id(IdNamespace::Turn, turn_id);
                DebugResponseItem::LocalShellCall {
                    id,
                    call_id,
                    status: debug_shell_status(*status),
                    command_part_count: *command_part_count,
                    timeout_present: *timeout_present,
                    working_directory_present: *working_directory_present,
                    environment_entry_count: *environment_entry_count,
                    user_present: *user_present,
                    turn_id,
                }
            },
            ResponseItem::FunctionCall {
                id,
                name,
                namespace,
                code_mode,
                arguments,
                call_id,
                turn_id,
            } => {
                let tool = classify_tool(namespace, name.as_str(), *code_mode);
                let debug_arguments = self.redact_tool_arguments(tool, arguments);
                let local_call_id = self.local_id(IdNamespace::Call, call_id.as_str());
                self.remember_call(local_call_id, tool, arguments);
                let id = self.optional_local_id(IdNamespace::Item, id);
                let turn_id = self.optional_local_id(IdNamespace::Turn, turn_id);
                DebugResponseItem::FunctionCall {
                    id,
                    call_id: local_call_id,
                    tool,
                    arguments: debug_arguments,
                    turn_id,
                }
            },
            ResponseItem::ToolSearchCall { id, call_id, status_present, arguments, turn_id } => {
                let id = self.optional_local_id(IdNamespace::Item, id);
                let call_id = self.optional_local_id(IdNamespace::Call, call_id);
                let turn_id = self.optional_local_id(IdNamespace::Turn, turn_id);
                DebugResponseItem::ToolSearchCall {
                    id,
                    call_id,
                    status_present: *status_present,
                    arguments: json_value_shape(arguments),
                    turn_id,
                }
            },
            ResponseItem::FunctionCallOutput { id, call_id, output, turn_id } => {
                let local_call_id = self.optional_local_id(IdNamespace::Call, call_id);
                let state = self.take_call(local_call_id);
                let debug_output = self.redact_tool_output(state, output, field(raw, "output"));
                let id = self.optional_local_id(IdNamespace::Item, id);
                let turn_id = self.optional_local_id(IdNamespace::Turn, turn_id);
                DebugResponseItem::FunctionCallOutput {
                    id,
                    call_id: local_call_id,
                    output: debug_output,
                    turn_id,
                }
            },
            ResponseItem::CustomToolCall {
                id,
                status_present,
                call_id,
                name,
                namespace,
                code_mode,
                input,
                turn_id,
            } => {
                let tool = classify_tool(namespace, name.as_str(), *code_mode);
                let debug_arguments = self.redact_tool_arguments(tool, input);
                let local_call_id = self.local_id(IdNamespace::Call, call_id.as_str());
                self.remember_call(local_call_id, tool, input);
                let id = self.optional_local_id(IdNamespace::Item, id);
                let turn_id = self.optional_local_id(IdNamespace::Turn, turn_id);
                DebugResponseItem::CustomToolCall {
                    id,
                    call_id: local_call_id,
                    tool,
                    status_present: *status_present,
                    arguments: debug_arguments,
                    turn_id,
                }
            },
            ResponseItem::CustomToolCallOutput { id, call_id, name_present, output, turn_id } => {
                let local_call_id = self.local_id(IdNamespace::Call, call_id.as_str());
                let state = self.take_call(Some(local_call_id));
                let output_name = if *name_present {
                    DebugOutputName::Other
                } else {
                    DebugOutputName::Absent
                };
                let debug_output = self.redact_tool_output(state, output, field(raw, "output"));
                let id = self.optional_local_id(IdNamespace::Item, id);
                let turn_id = self.optional_local_id(IdNamespace::Turn, turn_id);
                DebugResponseItem::CustomToolCallOutput {
                    id,
                    call_id: local_call_id,
                    output_name,
                    output: debug_output,
                    turn_id,
                }
            },
            ResponseItem::ToolSearchOutput { id, call_id, tool_count, turn_id } => {
                let id = self.optional_local_id(IdNamespace::Item, id);
                let call_id = self.optional_local_id(IdNamespace::Call, call_id);
                let turn_id = self.optional_local_id(IdNamespace::Turn, turn_id);
                DebugResponseItem::ToolSearchOutput {
                    id,
                    call_id,
                    tool_count: *tool_count,
                    turn_id,
                }
            },
            ResponseItem::WebSearchCall { id, status_present, action, turn_id } => {
                let id = self.optional_local_id(IdNamespace::Item, id);
                let turn_id = self.optional_local_id(IdNamespace::Turn, turn_id);
                DebugResponseItem::WebSearchCall {
                    id,
                    status_present: *status_present,
                    action: debug_web_action(*action),
                    turn_id,
                }
            },
            ResponseItem::ImageGenerationCall {
                id,
                revised_prompt_present,
                result_present,
                turn_id,
            } => {
                let id = self.optional_local_id(IdNamespace::Item, id);
                let turn_id = self.optional_local_id(IdNamespace::Turn, turn_id);
                DebugResponseItem::ImageGenerationCall {
                    id,
                    revised_prompt_present: *revised_prompt_present,
                    result_present: *result_present,
                    turn_id,
                }
            },
            ResponseItem::Compaction { id, turn_id } => {
                let id = self.optional_local_id(IdNamespace::Item, id);
                let turn_id = self.optional_local_id(IdNamespace::Turn, turn_id);
                DebugResponseItem::Compaction { id, turn_id }
            },
            ResponseItem::CompactionTrigger => DebugResponseItem::CompactionTrigger,
            ResponseItem::ContextCompaction { id, encrypted, turn_id } => {
                let id = self.optional_local_id(IdNamespace::Item, id);
                let turn_id = self.optional_local_id(IdNamespace::Turn, turn_id);
                DebugResponseItem::ContextCompaction { id, encrypted: *encrypted, turn_id }
            },
            ResponseItem::Other => DebugResponseItem::Other,
        }
    }

    #[verifier::rlimit(60)]
    #[verifier::spinoff_prover]
    fn redact_replacement_history(&mut self, items: &Vec<ResponseItem>, raw: Option<&Json>) -> (r:
        Vec<DebugResponseItem>)
        requires
            old(self).wf(),
            forall|i: int| 0 <= i < items@.len() ==> countable_item(#[trigger] items@[i]),
        ensures
            final(self).wf(),
            (final(self)@, item_models(r@)) == items_step(
                old(self)@,
                items@,
                elements(deref_option(raw)),
            ),
    {
        let ghost raws = elements(deref_option(raw));
        let mut out: Vec<DebugResponseItem> = Vec::new();
        let mut i: usize = 0;
        proof {
            assert(items@.take(0) =~= Seq::empty());
            assert(item_models(out@) =~= Seq::empty());
        }
        while i < items.len()
            invariant
                i <= items@.len(),
                self.wf(),
                raws == elements(deref_option(raw)),
                forall|k: int| 0 <= k < items@.len() ==> countable_item(#[trigger] items@[k]),
                (self@, item_models(out@)) == items_step(old(self)@, items@.take(i as int), raws),
            decreases items@.len() - i,
        {
            let raw_item = element(raw, i);
            let ghost before = item_models(out@);
            let shape = self.redact_response_item(&items[i], raw_item);
            out.push(shape);
            proof {
                let upto = items@.take(i + 1);
                assert(upto.drop_last() =~= items@.take(i as int));
                assert(upto.last() == items@[i as int]);
                assert(item_models(out@) =~= before.push(shape@));
            }
            i = i + 1;
        }
        assert(items@.take(i as int) =~= items@);
        out
    }

    fn map_agents(&mut self, agents: &Vec<String>) -> (r: Vec<u64>)
        requires
            old(self).wf(),
        ensures
            final(self).wf(),
            (final(self)@, r@) == agents_step(old(self)@, agents@),
    {
        let mut out: Vec<u64> = Vec::new();
        let mut i: usize = 0;
        proof {
            assert(agents@.take(0) =~= Seq::empty());
        }
        while i < agents.len()
            invariant
                i <= agents@.len(),
                self.wf(),
                (self@, out@) == agents_step(old(self)@, agents@.take(i as int)),
            decreases agents@.len() - i,
        {
            let id = self.local_id(IdNamespace::Agent, agents[i].as_str());
            out.push(id);
            proof {
                let upto = agents@.take(i + 1);
                assert(upto.drop_last() =~= agents@.take(i as int));
                assert(upto.last() == agents@[i as int]);
            }
            i = i + 1;
        }
        assert(agents@.take(i as int) =~= agents@);
        out
    }

    /// Erases the content of a native record. `raw` is the record's raw payload.
    pub fn redact_rollout_item(&mut self, item: &RolloutItem, raw: Option<&Json>) -> (r:
        DebugRolloutRecord)
        requires
            old(self).wf(),
            countable_record(*item),
        ensures
            final(self).wf(),
            (final(self)@, r@) == record_step(old(self)@, *item, deref_option(raw)),
    {
        match item {
            RolloutItem::SessionMeta {
                session_id,
                thread_id,
                forked_from_id,
                parent_thread_id,
                context_window_id,
                dynamic_tool_count,
                capability_root_count,
            } => {
                let session_id = self.local_id(IdNamespace::Session, session_id.as_str());
                let thread_id = self.local_id(IdNamespace::Thread, thread_id.as_str());
                let forked_from_thread_id = self.optional_local_id(
                    IdNamespace::Thread,
                    forked_from_id,
                );
                let parent_thread_id = self.optional_local_id(
                    IdNamespace::Thread,
                    parent_thread_id,
                );
                let context_window_id = self.optional_local_id(
                    IdNamespace::Window,
                    context_window_id,
                );
                let dynamic_tool_count: usize = match dynamic_tool_count {
                    Some(count) => *count,
                    None => 0,
                };
                DebugRolloutRecord::SessionMeta {
                    session_id,
                    thread_id,
                    forked_from_thread_id,
                    parent_thread_id,
                    context_window_id,
                    dynamic_tool_count,
                    capability_root_count: *capability_root_count,
                }
            },
            RolloutItem::ResponseItem(item) => DebugRolloutRecord::ResponseItem {
                item: self.redact_response_item(item, raw),
            },
            RolloutItem::InterAgentCommunication {
                id,
                author,
                recipient,
                other_recipients,
                trigger_turn,
                encrypted,
                turn_id,
            } => {
                let id = self.optional_local_id(IdNamespace::Item, id);
                let author = self.local_id(IdNamespace::Agent, author.as_str());
                let recipient = self.local_id(IdNamespace::Agent, recipient.as_str());
                let other_recipients = self.map_agents(other_recipients);
                let turn_id = self.optional_local_id(IdNamespace::Turn, turn_id);
                DebugRolloutRecord::InterAgentCommunication {
                    id,
                    author,
                    recipient,
                    other_recipients,
                    trigger_turn: *trigger_turn,
                    encrypted: *encrypted,
                    turn_id,
                }
            },
            RolloutItem::InterAgentCommunicationMetadata { trigger_turn } => {
                DebugRolloutRecord::InterAgentCommunicationMetadata { trigger_turn: *trigger_turn }
            },
            RolloutItem::Compacted {
                replacement_history,
                window_number,
                first_window_id,
                previous_window_id,
                window_id,
            } => {
                let replacement_history = match replacement_history {
                    Some(items) => Some(
                        self.redact_replacement_history(items, field(raw, "replacement_history")),
                    ),
                    None => None,
                };
                let first_window_id = self.optional_local_id(IdNamespace::Window, first_window_id);
                let previous_window_id = self.optional_local_id(
                    IdNamespace::Window,
                    previous_window_id,
                );
                let window_id = self.optional_local_id(IdNamespace::Window, window_id);
                DebugRolloutRecord::Compacted {
                    replacement_history,
                    window_number: *window_number,
                    first_window_id,
                    previous_window_id,
                    window_id,
                }
            },
            RolloutItem::TurnContext { turn_id, workspace_root_count, realtime_active } => {
                let turn_id = self.optional_local_id(IdNamespace::Turn, turn_id);
                DebugRolloutRecord::TurnContext {
                    turn_id,
                    workspace_root_count: *workspace_root_count,
                    realtime_active: *realtime_active,
                }
            },
            RolloutItem::WorldState { full } => DebugRolloutRecord::WorldState { full: *full },
            RolloutItem::EventMsg(event) => DebugRolloutRecord::Event {
                event: redact_event(*event),
            },
            RolloutItem::TokenUsageRecord { usage } => DebugRolloutRecord::TokenUsageRecord {
                usage: debug_token_usage(*usage),
            },
            RolloutItem::SecurityRiskScore => DebugRolloutRecord::SecurityRiskScore,
            RolloutItem::RealtimeItem => DebugRolloutRecord::RealtimeItem,
            RolloutItem::SpineSamplingStarted | RolloutItem::SpineTransition => {
                DebugRolloutRecord::UnknownRedacted { scope: DebugPlaceholderScope::TopLevel }
            },
        }
    }

    /// Erases the content of a parsed line. `decoded` is the native record that
    /// the line decodes to, where it does.
    pub fn redact_value(&mut self, raw: &Json, decoded: &Option<RolloutItem>) -> (r:
        DebugRolloutRecord)
        requires
            old(self).wf(),
            *decoded matches Some(item) ==> countable_record(item),
        ensures
            final(self).wf(),
            (final(self)@, r@) == value_step(old(self)@, *raw, *decoded),
    {
        let is_object = match raw {
            Json::Object(_) => true,
            _ => false,
        };
        if !is_object {
            return DebugRolloutRecord::MalformedRedacted { scope: DebugPlaceholderScope::TopLevel };
        }
        let payload = field(Some(raw), "payload");
        let top_type = text_value(field(Some(raw), "type"));
        let payload_type = text_value(field(payload, "type"));
        if let Some(kind) = top_type {
            if !is_known_rollout_item_type(kind) {
                return DebugRolloutRecord::UnknownRedacted {
                    scope: DebugPlaceholderScope::TopLevel,
                };
            }
        }
        let is_response = match top_type {
            Some(kind) => same_text(kind, "response_item"),
            None => false,
        };
        let is_event = match top_type {
            Some(kind) => same_text(kind, "event_msg"),
            None => false,
        };
        if let Some(kind) = payload_type {
            if is_response && !is_known_response_item_type(kind) {
                return DebugRolloutRecord::UnknownRedacted {
                    scope: DebugPlaceholderScope::ResponseItem,
                };
            }
            if is_event && !is_known_event_type(kind) {
                return DebugRolloutRecord::UnknownRedacted { scope: DebugPlaceholderScope::Event };
            }
        }
        match decoded {
            Some(item) => self.redact_rollout_item(item, payload),
            None => {
                let scope = if is_response {
                    DebugPlaceholderScope::ResponseItem
                } else if is_event {
                    DebugPlaceholderScope::Event
                } else {
                    DebugPlaceholderScope::TopLevel
                };
                DebugRolloutRecord::MalformedRedacted { scope }
            },
        }
    }

    /// Erases the content of one source line, whatever state the redactor is in.
    pub fn redact_json_line(&mut self, line: &[u8], scan: JsonScan, decoded: &Option<RolloutItem>)
        -> (r: DebugRolloutRecord)
        requires
            old(self).wf(),
            *decoded matches Some(item) ==> countable_record(item),
        ensures
            final(self).wf(),
            (final(self)@, r@) == line_step(old(self)@, line@, scan, *decoded),
    {
        self.begin_record();
        let syntactically_valid = self.preflight_json(scan);
        if !syntactically_valid {
            return DebugRolloutRecord::MalformedRedacted { scope: DebugPlaceholderScope::Line };
        }
        match parse_json(line) {
            Some(raw) => self.redact_value(&raw, decoded),
            None => DebugRolloutRecord::MalformedRedacted { scope: DebugPlaceholderScope::Line },
        }
    }

    /// Redact one native JSONL record into a non-replayable diagnostic record.
    ///
    /// `scan` is the structural scan of `line`, and `decoded` the native record
    /// that it decodes to, where it does.
    pub fn redact_json_line_to_value(
        &mut self,
        line: &[u8],
        scan: JsonScan,
        decoded: &Option<RolloutItem>,
    ) -> (r: Result<DebugRolloutRecord, RolloutDebugRedactorError>)
        requires
            old(self).wf(),
            *decoded matches Some(item) ==> countable_record(item),
        ensures
            final(self).wf(),
            final(self)@ == outcome_step(old(self)@, line@, scan, *decoded).0,
            match (r, outcome_step(old(self)@, line@, scan, *decoded).1) {
                (Ok(record), Ok(expected)) => record@ == expected,
                (Err(error), Err(expected)) => error == expected,
                _ => false,
            },
    {
        if let Some(error) = self.failure {
            return Err(error);
        }
        let record = self.redact_json_line(line, scan, decoded);
        if let Some(error) = self.failure {
            return Err(error);
        }
        Ok(record)
    }

    /// Return the positional placeholder for a source line that exceeded the
    /// collector's retained-byte bound.
    pub fn oversized_value() -> (r: DebugRolloutRecord)
        ensures
            r == DebugRolloutRecord::OversizedRedacted,
    {
        DebugRolloutRecord::oversized()
    }
}

} // verus!

//! What the shapes of erased content tell.

use vstd::prelude::*;

verus! {

use crate::debug_record::{
    spine_tool, BodyModel, DebugAgentContentKind, DebugCollectionShape, DebugContentKind,
    DebugJsonValueShape, DebugMessagePhase, DebugMessageRole, DebugObjectState,
    DebugOutputContentKind, DebugReasoningContentKind, DebugSchemaShape, DebugShellStatus,
    DebugSpawnOutcomeShape, DebugStringShape, DebugToolKind, DebugUnsignedShape, DebugWebAction,
};
use crate::json::{field_of, unknown_fields, Json};
use crate::rollout::{
    AgentContentKind, ContentKind, EventMsg, LocalShellStatus, MessagePhase, OutputBody,
    ReasoningContentKind, TokenUsage, TokenUsageInfo, WebSearchAction,
};
use crate::shapes::{
    agent_content_kinds, collection_shape, content_kinds, elements, event_kind_text, event_shape,
    known_event_type, known_response_item_type, known_rollout_item_type, message_role, number_shape,
    object_state, optional_phase, optional_web_action, outcome_shape, output_body,
    reasoning_content_kinds, schema_text_shape, shell_status, task_shapes, text_shape,
    token_usage_shape, tool_kind, value_shape,
};
use crate::text::{blank, byte_len, white_space};

/// The record of a token count carries the usage of the whole session as its
/// total and that of the last request as its last, field by field.
pub proof fn a_token_count_keeps_its_usages(info: TokenUsageInfo)
    ensures
        event_shape(EventMsg::TokenCount { info: Some(info) }).token_usage matches Some(kept) && {
            &&& kept.total.input_tokens == info.total_token_usage.input_tokens
            &&& kept.total.cached_input_tokens == info.total_token_usage.cached_input_tokens
            &&& kept.total.output_tokens == info.total_token_usage.output_tokens
            &&& kept.total.reasoning_output_tokens
                == info.total_token_usage.reasoning_output_tokens
            &&& kept.total.total_tokens == info.total_token_usage.total_tokens
            &&& kept.last.input_tokens == info.last_token_usage.input_tokens
            &&& kept.last.cached_input_tokens == info.last_token_usage.cached_input_tokens
            &&& kept.last.output_tokens == info.last_token_usage.output_tokens
            &&& kept.last.reasoning_output_tokens == info.last_token_usage.reasoning_output_tokens
            &&& kept.last.total_tokens == info.last_token_usage.total_tokens
            &&& kept.model_context_window == info.model_context_window
        },
        event_shape(EventMsg::TokenCount { info: None }).token_usage is None,
        event_shape(EventMsg::TokenCount { info: Some(info) }).rolled_back_turns is None,
{
}

/// A usage is kept field by field, so two that differ are told apart.
pub proof fn a_usage_is_kept(usage: TokenUsage, other: TokenUsage)
    ensures
        token_usage_shape(usage).input_tokens == usage.input_tokens,
        token_usage_shape(usage).cached_input_tokens == usage.cached_input_tokens,
        token_usage_shape(usage).output_tokens == usage.output_tokens,
        token_usage_shape(usage).reasoning_output_tokens == usage.reasoning_output_tokens,
        token_usage_shape(usage).total_tokens == usage.total_tokens,
        token_usage_shape(usage) == token_usage_shape(other) ==> usage == other,
{
}

/// A rollback keeps how many turns it took back, only token counts keep usages,
/// and only rollbacks keep turns.
pub proof fn events_keep_their_own_counts(event: EventMsg)
    ensures
        event matches EventMsg::ThreadRolledBack { num_turns } ==> event_shape(
            event,
        ).rolled_back_turns == Some(num_turns),
        !(event is ThreadRolledBack) ==> event_shape(event).rolled_back_turns is None,
        !(event is TokenCount) ==> event_shape(event).token_usage is None,
        event_shape(event).kind == event_kind_text(event),
{
}

/// Every event is named as a line may declare it, but for the three that are
/// never taken from a line.
pub proof fn events_have_known_names(event: EventMsg)
    ensures
        !(event is AuthRecoveryStarted || event is AuthRecoveryCompleted
            || event is ThreadQueueChanged) ==> known_event_type(event_kind_text(event)),
        event is TokenCount ==> event_kind_text(event) == "token_count"@,
        event is ThreadRolledBack ==> event_kind_text(event) == "thread_rolled_back"@,
        event is TurnStarted ==> event_kind_text(event) == "task_started"@,
        event is TurnComplete ==> event_kind_text(event) == "task_complete"@,
        event is TurnAborted ==> event_kind_text(event) == "turn_aborted"@,
        event is UserMessage ==> event_kind_text(event) == "user_message"@,
        event is AgentMessage ==> event_kind_text(event) == "agent_message"@,
        event is ContextCompacted ==> event_kind_text(event) == "context_compacted"@,
        event is Error ==> event_kind_text(event) == "error"@,
        event is Warning ==> event_kind_text(event) == "warning"@,
        event is SpineTreeUpdate ==> event_kind_text(event) == "spine_tree_update"@,
        event is SpineSpawnProgress ==> event_kind_text(event) == "spine_spawn_progress"@,
        event is ExecCommandBegin ==> event_kind_text(event) == "exec_command_begin"@,
        event is ExecCommandEnd ==> event_kind_text(event) == "exec_command_end"@,
{
}

/// The types that a line of a rollout may declare.
pub open spec fn rollout_types() -> Seq<Seq<char>> {
    seq![
        "session_meta"@,
        "response_item"@,
        "inter_agent_communication"@,
        "inter_agent_communication_metadata"@,
        "compacted"@,
        "turn_context"@,
        "world_state"@,
        "event_msg"@,
    ]
}

/// A line may declare one of these types, and no other.
pub proof fn lines_declare_their_types(kind: Seq<char>)
    ensures
        known_rollout_item_type(kind) <==> rollout_types().contains(kind),
{
    let types = rollout_types();
    assert(types[0] == "session_meta"@ && types[1] == "response_item"@);
    assert(types[2] == "inter_agent_communication"@);
    assert(types[3] == "inter_agent_communication_metadata"@);
    assert(types[4] == "compacted"@ && types[5] == "turn_context"@);
    assert(types[6] == "world_state"@ && types[7] == "event_msg"@);
    if types.contains(kind) {
        let i = choose|i: int| 0 <= i < types.len() && types[i] == kind;
        assert(i == 0 || i == 1 || i == 2 || i == 3 || i == 4 || i == 5 || i == 6 || i == 7);
    }
}

/// The types that a response item may declare.
pub open spec fn item_types() -> Seq<Seq<char>> {
    seq![
        "message"@,
        "agent_message"@,
        "reasoning"@,
        "function_call"@,
        "function_call_output"@,
        "custom_tool_call"@,
        "custom_tool_call_output"@,
        "local_shell_call"@,
        "tool_search_call"@,
        "tool_search_output"@,
        "web_search_call"@,
        "image_generation_call"@,
        "additional_tools"@,
        "compaction"@,
        "compaction_summary"@,
        "compaction_trigger"@,
        "context_compaction"@,
        "other"@,
    ]
}

/// An item may declare one of these types, and no other.
pub proof fn items_declare_their_types(kind: Seq<char>)
    ensures
        known_response_item_type(kind) <==> item_types().contains(kind),
{
    let types = item_types();
    assert(types[0] == "message"@ && types[1] == "agent_message"@ && types[2] == "reasoning"@);
    assert(types[3] == "function_call"@ && types[4] == "function_call_output"@);
    assert(types[5] == "custom_tool_call"@ && types[6] == "custom_tool_call_output"@);
    assert(types[7] == "local_shell_call"@ && types[8] == "tool_search_call"@);
    assert(types[9] == "tool_search_output"@ && types[10] == "web_search_call"@);
    assert(types[11] == "image_generation_call"@ && types[12] == "additional_tools"@);
    assert(types[13] == "compaction"@ && types[14] == "compaction_summary"@);
    assert(types[15] == "compaction_trigger"@ && types[16] == "context_compaction"@);
    assert(types[17] == "other"@);
    if types.contains(kind) {
        let i = choose|i: int| 0 <= i < types.len() && types[i] == kind;
        assert(0 <= i < 18);
    }
}

/// A Spine control is known by its name in the `spine` namespace, or by its full
/// name in none; the host's code mode does not change that.
pub proof fn spine_controls_are_known(code_mode: bool)
    ensures
        tool_kind(Some("spine"@), "open"@, code_mode) == DebugToolKind::SpineOpen,
        tool_kind(Some("spine"@), "close"@, code_mode) == DebugToolKind::SpineClose,
        tool_kind(Some("spine"@), "next"@, code_mode) == DebugToolKind::SpineNext,
        tool_kind(Some("spine"@), "spawn"@, code_mode) == DebugToolKind::SpineSpawn,
        tool_kind(None, "spine.open"@, code_mode) == DebugToolKind::SpineOpen,
        tool_kind(None, "spine.close"@, code_mode) == DebugToolKind::SpineClose,
        tool_kind(None, "spine.next"@, code_mode) == DebugToolKind::SpineNext,
        tool_kind(None, "spine.spawn"@, code_mode) == DebugToolKind::SpineSpawn,
{
    reveal_strlit("open");
    reveal_strlit("close");
    reveal_strlit("next");
    reveal_strlit("spawn");
    reveal_strlit("spine.open");
    reveal_strlit("spine.close");
    reveal_strlit("spine.next");
    reveal_strlit("spine.spawn");
    assert("open"@[0] == 'o' && "close"@[0] == 'c' && "next"@[0] == 'n' && "spawn"@[0] == 's');
    assert("spine.open"@[6] == 'o' && "spine.close"@[6] == 'c');
    assert("spine.next"@[6] == 'n' && "spine.spawn"@[6] == 's');
}

/// No tool outside the `spine` namespace is a Spine control, unless it has none
/// and a full name; and a tool that is none is of the code mode where that
/// claims it.
pub proof fn other_tools_are_no_controls(
    namespace: Option<Seq<char>>,
    name: Seq<char>,
    code_mode: bool,
)
    ensures
        namespace is Some && namespace != Some("spine"@) ==> !spine_tool(
            tool_kind(namespace, name, code_mode),
        ),
        namespace is None && name != "spine.open"@ && name != "spine.close"@ && name
            != "spine.next"@ && name != "spine.spawn"@ ==> !spine_tool(
            tool_kind(namespace, name, code_mode),
        ),
        namespace == Some("spine"@) && name != "open"@ && name != "close"@ && name != "next"@
            && name != "spawn"@ ==> !spine_tool(tool_kind(namespace, name, code_mode)),
        !spine_tool(tool_kind(namespace, name, code_mode)) && code_mode ==> tool_kind(
            namespace,
            name,
            code_mode,
        ) == DebugToolKind::CodeMode,
        !code_mode ==> tool_kind(namespace, name, code_mode) != DebugToolKind::CodeMode,
        tool_kind(namespace, name, code_mode) == DebugToolKind::Mcp ==> namespace is Some,
        tool_kind(namespace, name, code_mode) == DebugToolKind::Other ==> namespace is None,
{
}

/// Outside the `spine` namespace and the code mode, tools are known by name:
/// those of the shell, of patches, of the web and of images.
pub proof fn tools_are_known_by_name(namespace: Option<Seq<char>>, name: Seq<char>)
    requires
        !spine_tool(tool_kind(namespace, name, false)),
    ensures
        name == "shell_command"@ || name == "exec_command"@ || name == "write_stdin"@ <==> tool_kind(
            namespace,
            name,
            false,
        ) == DebugToolKind::Shell,
        name == "apply_patch"@ <==> tool_kind(namespace, name, false) == DebugToolKind::Patch,
        name == "web_search"@ || name == "web_search_preview"@ <==> tool_kind(
            namespace,
            name,
            false,
        ) == DebugToolKind::Web,
        name == "view_image"@ || name == "image_generation"@ <==> tool_kind(namespace, name, false)
            == DebugToolKind::Image,
{
    reveal_strlit("shell_command");
    reveal_strlit("exec_command");
    reveal_strlit("write_stdin");
    reveal_strlit("apply_patch");
    reveal_strlit("web_search");
    reveal_strlit("web_search_preview");
    reveal_strlit("view_image");
    reveal_strlit("image_generation");
    assert("shell_command"@[0] == 's' && "exec_command"@[0] == 'e' && "write_stdin"@[1] == 'r');
    assert("apply_patch"@[0] == 'a' && "web_search"@[1] == 'e' && "web_search_preview"@[1] == 'e');
    assert("view_image"@[0] == 'v' && "image_generation"@[0] == 'i');
    assert("write_stdin"@[0] == 'w' && "web_search"@[0] == 'w' && "web_search_preview"@[0] == 'w');
}

/// A role is kept by its name.
pub proof fn roles_are_kept(role: Seq<char>)
    ensures
        role == "user"@ <==> message_role(role) == DebugMessageRole::User,
        role == "assistant"@ <==> message_role(role) == DebugMessageRole::Assistant,
        role == "developer"@ <==> message_role(role) == DebugMessageRole::Developer,
        role == "system"@ <==> message_role(role) == DebugMessageRole::System,
{
    reveal_strlit("user");
    reveal_strlit("assistant");
    reveal_strlit("developer");
    reveal_strlit("system");
    assert("user"@[0] == 'u' && "assistant"@[0] == 'a');
    assert("developer"@[0] == 'd' && "system"@[0] == 's');
}

/// A phase is kept, and its absence.
pub proof fn phases_are_kept(phase: Option<MessagePhase>)
    ensures
        phase is None <==> optional_phase(phase) is None,
        phase == Some(MessagePhase::Commentary) <==> optional_phase(phase) == Some(
            DebugMessagePhase::Commentary,
        ),
        phase == Some(MessagePhase::FinalAnswer) <==> optional_phase(phase) == Some(
            DebugMessagePhase::FinalAnswer,
        ),
{
}

/// Of a message's content, each piece keeps its kind and its place.
pub proof fn content_keeps_its_kinds(items: Seq<ContentKind>, i: int)
    requires
        0 <= i < items.len(),
    ensures
        content_kinds(items).len() == items.len(),
        items[i] is InputText <==> content_kinds(items)[i] == DebugContentKind::InputText,
        items[i] is InputImage <==> content_kinds(items)[i] == DebugContentKind::InputImage,
        items[i] is InputAudio <==> content_kinds(items)[i] == DebugContentKind::InputAudio,
        items[i] is OutputText <==> content_kinds(items)[i] == DebugContentKind::OutputText,
{
}

/// So does that of a message between agents.
pub proof fn agent_content_keeps_its_kinds(items: Seq<AgentContentKind>, i: int)
    requires
        0 <= i < items.len(),
    ensures
        agent_content_kinds(items).len() == items.len(),
        items[i] is InputText <==> agent_content_kinds(items)[i]
            == DebugAgentContentKind::InputText,
        items[i] is EncryptedContent <==> agent_content_kinds(items)[i]
            == DebugAgentContentKind::EncryptedContent,
{
}

/// And that of reasoning.
pub proof fn reasoning_content_keeps_its_kinds(items: Seq<ReasoningContentKind>, i: int)
    requires
        0 <= i < items.len(),
    ensures
        reasoning_content_kinds(items).len() == items.len(),
        items[i] is ReasoningText <==> reasoning_content_kinds(items)[i]
            == DebugReasoningContentKind::ReasoningText,
        items[i] is Text <==> reasoning_content_kinds(items)[i] == DebugReasoningContentKind::Text,
{
}

/// The status of a shell call is kept.
pub proof fn shell_statuses_are_kept(status: LocalShellStatus)
    ensures
        status is Completed <==> shell_status(status) == DebugShellStatus::Completed,
        status is InProgress <==> shell_status(status) == DebugShellStatus::InProgress,
        status is Incomplete <==> shell_status(status) == DebugShellStatus::Incomplete,
{
}

/// Of a web search, what it did is kept, and how many queries it had in all.
pub proof fn web_actions_are_kept(action: Option<WebSearchAction>, queries: usize)
    ensures
        action is None <==> optional_web_action(action) is None,
        action == Some(WebSearchAction::OpenPage) <==> optional_web_action(action) == Some(
            DebugWebAction::OpenPage,
        ),
        action == Some(WebSearchAction::FindInPage) <==> optional_web_action(action) == Some(
            DebugWebAction::FindInPage,
        ),
        action == Some(WebSearchAction::Other) <==> optional_web_action(action) == Some(
            DebugWebAction::Other,
        ),
        optional_web_action(
            Some(WebSearchAction::Search { query: false, queries: Some(queries) }),
        ) == Some(DebugWebAction::Search { query_count: queries }),
        queries < usize::MAX ==> optional_web_action(
            Some(WebSearchAction::Search { query: true, queries: Some(queries) }),
        ) == Some(DebugWebAction::Search { query_count: (queries + 1) as usize }),
        optional_web_action(Some(WebSearchAction::Search { query: true, queries: None })) == Some(
            DebugWebAction::Search { query_count: 1 },
        ),
        optional_web_action(Some(WebSearchAction::Search { query: false, queries: None })) == Some(
            DebugWebAction::Search { query_count: 0 },
        ),
{
}

/// Of an output, a text keeps its size in bytes, and a list the kind of each
/// piece.
pub proof fn outputs_keep_their_shape(body: OutputBody, i: int)
    ensures
        body matches OutputBody::Text(text) ==> (byte_len(text@) <= usize::MAX ==> (output_body(
            body,
        ) matches BodyModel::Text { bytes } && bytes == byte_len(text@))),
        body matches OutputBody::ContentItems(items) ==> (output_body(body) matches
            BodyModel::ContentItems { items: kinds } && kinds.len() == items@.len() && (0 <= i
            < items@.len() ==> {
            &&& items@[i] is InputText <==> kinds[i] == DebugOutputContentKind::InputText
            &&& items@[i] is InputImage <==> kinds[i] == DebugOutputContentKind::InputImage
            &&& items@[i] is InputAudio <==> kinds[i] == DebugOutputContentKind::InputAudio
            &&& items@[i] is EncryptedContent <==> kinds[i]
                == DebugOutputContentKind::EncryptedContent
        })),
{
}

/// A value keeps its type, and a list and an object how many members they have.
pub proof fn values_keep_their_type(value: Json)
    ensures
        value is Null <==> value_shape(value) == DebugJsonValueShape::Null,
        value is Bool <==> value_shape(value) == DebugJsonValueShape::Bool,
        value is Unsigned || value is Negative || value is OtherNumber <==> value_shape(value)
            == DebugJsonValueShape::Number,
        value is Text <==> value_shape(value) == DebugJsonValueShape::Text,
        value matches Json::Array(items) ==> (value_shape(value) matches DebugJsonValueShape::Array(
            n,
        ) && n == items@.len()),
        value matches Json::Object(fields) ==> (value_shape(value) matches
            DebugJsonValueShape::Object(n) && n == fields@.len()),
        value_shape(value) != DebugJsonValueShape::MalformedJson,
{
    match value {
        Json::Array(items) => {
            assert(items@.len() == items.len());
        },
        Json::Object(fields) => {
            assert(fields@.len() == fields.len());
        },
        _ => {},
    }
}

/// Of an expected text it is told whether it is there, is a text, and says
/// anything.
pub proof fn texts_keep_their_shape(value: Option<Json>)
    ensures
        value is None <==> text_shape(value) == DebugStringShape::Missing,
        value matches Some(Json::Null) <==> text_shape(value) == DebugStringShape::Null,
        (value matches Some(Json::Text(text)) && text@.len() == 0) <==> text_shape(value)
            == DebugStringShape::Empty,
        (value matches Some(Json::Text(text)) && exists|i: int|
            0 <= i < text@.len() && !white_space(#[trigger] text@[i])) <==> text_shape(value)
            == DebugStringShape::NonEmpty,
        (value matches Some(Json::Text(text)) && text@.len() > 0 && forall|i: int|
            0 <= i < text@.len() ==> white_space(#[trigger] text@[i])) <==> text_shape(value)
            == DebugStringShape::Whitespace,
        (value matches Some(other) && !(other is Null || other is Text)) <==> text_shape(value)
            == DebugStringShape::WrongType,
{
}

/// Of an expected number it is told whether it is there, which one it is where
/// it is unsigned, and else why it is none.
pub proof fn numbers_keep_their_shape(value: Option<Json>)
    ensures
        value is None <==> number_shape(value) == DebugUnsignedShape::Missing,
        value matches Some(Json::Null) <==> number_shape(value) == DebugUnsignedShape::Null,
        value matches Some(Json::Unsigned(n)) ==> number_shape(value)
            == DebugUnsignedShape::Unsigned(n),
        value matches Some(Json::Negative(n)) ==> (n < 0 <==> number_shape(value)
            == DebugUnsignedShape::Negative),
        value matches Some(Json::OtherNumber) ==> number_shape(value)
            == DebugUnsignedShape::OtherNumber,
        (value matches Some(other) && (other is Bool || other is Text || other is Array
            || other is Object)) <==> number_shape(value) == DebugUnsignedShape::WrongType,
{
}

/// Of a schema it is told whether it is the expected one.
pub proof fn schemas_are_recognised(value: Option<Json>, expected: Seq<char>)
    requires
        !blank(expected),
    ensures
        value is None <==> schema_text_shape(value, expected) == DebugSchemaShape::Missing,
        value matches Some(Json::Null) <==> schema_text_shape(value, expected)
            == DebugSchemaShape::Null,
        (value matches Some(Json::Text(text)) && text@ == expected) <==> schema_text_shape(
            value,
            expected,
        ) == DebugSchemaShape::ExactV1,
        (value matches Some(Json::Text(text)) && text@.len() == 0) <==> schema_text_shape(
            value,
            expected,
        ) == DebugSchemaShape::Empty,
        (value matches Some(Json::Text(text)) && text@.len() > 0 && blank(text@))
            <==> schema_text_shape(value, expected) == DebugSchemaShape::Whitespace,
        (value matches Some(other) && !(other is Null || other is Text)) <==> schema_text_shape(
            value,
            expected,
        ) == DebugSchemaShape::WrongType,
{
}

/// Of an outcome it is told which one it is.
pub proof fn outcomes_are_recognised(value: Option<Json>)
    ensures
        value is None <==> outcome_shape(value) == DebugSpawnOutcomeShape::Missing,
        value matches Some(Json::Null) <==> outcome_shape(value) == DebugSpawnOutcomeShape::Null,
        (value matches Some(Json::Text(text)) && text@ == "completed"@) <==> outcome_shape(value)
            == DebugSpawnOutcomeShape::Completed,
        (value matches Some(Json::Text(text)) && text@ == "errored"@) <==> outcome_shape(value)
            == DebugSpawnOutcomeShape::Errored,
        (value matches Some(Json::Text(text)) && text@ == "aborted"@) <==> outcome_shape(value)
            == DebugSpawnOutcomeShape::Aborted,
        (value matches Some(Json::Text(text)) && text@.len() == 0) <==> outcome_shape(value)
            == DebugSpawnOutcomeShape::Empty,
        (value matches Some(Json::Text(text)) && text@.len() > 0 && blank(text@))
            <==> outcome_shape(value) == DebugSpawnOutcomeShape::Whitespace,
        (value matches Some(other) && !(other is Null || other is Text)) <==> outcome_shape(value)
            == DebugSpawnOutcomeShape::WrongType,
{
    reveal_strlit("completed");
    reveal_strlit("errored");
    reveal_strlit("aborted");
    assert("completed"@[0] == 'c' && "errored"@[0] == 'e' && "aborted"@[0] == 'a');
    assert(!white_space("completed"@[0]) && !white_space("errored"@[0]) && !white_space(
        "aborted"@[0],
    ));
}

/// Of an expected object and an expected list it is told whether they are that,
/// and a list has its elements in order.
pub proof fn objects_and_lists_are_recognised(value: Option<Json>)
    ensures
        value is None <==> object_state(value) == DebugObjectState::MalformedJson,
        (value matches Some(Json::Object(_))) <==> object_state(value) == DebugObjectState::Object,
        value is None <==> collection_shape(value) == DebugCollectionShape::Missing,
        value matches Some(Json::Null) <==> collection_shape(value) == DebugCollectionShape::Null,
        (value matches Some(Json::Array(_))) <==> collection_shape(value)
            == DebugCollectionShape::Array,
        value matches Some(Json::Array(items)) ==> elements(value) == items@,
        !(value matches Some(Json::Array(_))) ==> elements(value).len() == 0,
{
}

/// Of the tasks of a request each keeps its own shape: whether it has a summary
/// and a prompt, and nothing else.
pub proof fn tasks_keep_their_shape(value: Option<Json>, i: int)
    requires
        value matches Some(Json::Array(items)) && 0 <= i < items@.len(),
    ensures
        ({
            let items = value->Some_0->Array_0@;
            let kept = task_shapes(value);
            &&& kept.shape == DebugCollectionShape::Array
            &&& kept.items.len() == items.len()
            &&& kept.items[i].object == object_state(Some(items[i]))
            &&& kept.items[i].summary == text_shape(field_of(Some(items[i]), "summary"@))
            &&& kept.items[i].prompt == text_shape(field_of(Some(items[i]), "prompt"@))
            &&& kept.items[i].unknown_fields == unknown_fields(
                Some(items[i]),
                seq!["summary"@, "prompt"@],
            )
        }),
{
}

/// Each event is named by its own words, joined by underscores; a turn counts as
/// a task in the names of its beginning and its end.
pub proof fn each_event_has_its_name(event: EventMsg)
    ensures
        match event {
            EventMsg::Error => event_kind_text(event) == "error"@,
            EventMsg::Warning => event_kind_text(event) == "warning"@,
            EventMsg::GuardianWarning => event_kind_text(event) == "guardian_warning"@,
            EventMsg::RealtimeConversationStarted => event_kind_text(event) == "realtime_conversation_started"@,
            EventMsg::RealtimeConversationRealtime => event_kind_text(event) == "realtime_conversation_realtime"@,
            EventMsg::RealtimeConversationClosed => event_kind_text(event) == "realtime_conversation_closed"@,
            EventMsg::RealtimeConversationSdp => event_kind_text(event) == "realtime_conversation_sdp"@,
            EventMsg::ModelReroute => event_kind_text(event) == "model_reroute"@,
            EventMsg::ModelVerification => event_kind_text(event) == "model_verification"@,
            EventMsg::TurnModerationMetadata => event_kind_text(event) == "turn_moderation_metadata"@,
            EventMsg::SafetyBuffering => event_kind_text(event) == "safety_buffering"@,
            EventMsg::ContextCompacted => event_kind_text(event) == "context_compacted"@,
            EventMsg::ThreadRolledBack { .. } => event_kind_text(event) == "thread_rolled_back"@,
            EventMsg::TurnStarted => event_kind_text(event) == "task_started"@,
            EventMsg::ThreadSettingsApplied => event_kind_text(event) == "thread_settings_applied"@,
            EventMsg::TurnComplete => event_kind_text(event) == "task_complete"@,
            EventMsg::TokenCount { .. } => event_kind_text(event) == "token_count"@,
            EventMsg::AgentMessage => event_kind_text(event) == "agent_message"@,
            EventMsg::UserMessage => event_kind_text(event) == "user_message"@,
            EventMsg::AgentReasoning => event_kind_text(event) == "agent_reasoning"@,
            EventMsg::AgentReasoningRawContent => event_kind_text(event) == "agent_reasoning_raw_content"@,
            EventMsg::AgentReasoningSectionBreak => event_kind_text(event) == "agent_reasoning_section_break"@,
            EventMsg::SessionConfigured => event_kind_text(event) == "session_configured"@,
            EventMsg::EnvironmentConnected => event_kind_text(event) == "environment_connected"@,
            EventMsg::EnvironmentDisconnected => event_kind_text(event) == "environment_disconnected"@,
            EventMsg::ThreadGoalUpdated => event_kind_text(event) == "thread_goal_updated"@,
            EventMsg::McpStartupUpdate => event_kind_text(event) == "mcp_startup_update"@,
            EventMsg::McpStartupComplete => event_kind_text(event) == "mcp_startup_complete"@,
            EventMsg::McpToolCallBegin => event_kind_text(event) == "mcp_tool_call_begin"@,
            EventMsg::McpToolCallEnd => event_kind_text(event) == "mcp_tool_call_end"@,
            EventMsg::WebSearchBegin => event_kind_text(event) == "web_search_begin"@,
            EventMsg::WebSearchEnd => event_kind_text(event) == "web_search_end"@,
            EventMsg::ImageGenerationBegin => event_kind_text(event) == "image_generation_begin"@,
            EventMsg::ImageGenerationEnd => event_kind_text(event) == "image_generation_end"@,
            EventMsg::ExecCommandBegin => event_kind_text(event) == "exec_command_begin"@,
            EventMsg::ExecCommandOutputDelta => event_kind_text(event) == "exec_command_output_delta"@,
            EventMsg::TerminalInteraction => event_kind_text(event) == "terminal_interaction"@,
            EventMsg::ExecCommandEnd => event_kind_text(event) == "exec_command_end"@,
            EventMsg::ViewImageToolCall => event_kind_text(event) == "view_image_tool_call"@,
            EventMsg::ExecApprovalRequest => event_kind_text(event) == "exec_approval_request"@,
            EventMsg::RequestPermissions => event_kind_text(event) == "request_permissions"@,
            EventMsg::RequestUserInput => event_kind_text(event) == "request_user_input"@,
            EventMsg::DynamicToolCallRequest => event_kind_text(event) == "dynamic_tool_call_request"@,
            EventMsg::DynamicToolCallResponse => event_kind_text(event) == "dynamic_tool_call_response"@,
            EventMsg::ElicitationRequest => event_kind_text(event) == "elicitation_request"@,
            EventMsg::ApplyPatchApprovalRequest => event_kind_text(event) == "apply_patch_approval_request"@,
            EventMsg::GuardianAssessment => event_kind_text(event) == "guardian_assessment"@,
            EventMsg::DeprecationNotice => event_kind_text(event) == "deprecation_notice"@,
            EventMsg::StreamError => event_kind_text(event) == "stream_error"@,
            EventMsg::PatchApplyBegin => event_kind_text(event) == "patch_apply_begin"@,
            EventMsg::PatchApplyUpdated => event_kind_text(event) == "patch_apply_updated"@,
            EventMsg::PatchApplyEnd => event_kind_text(event) == "patch_apply_end"@,
            EventMsg::TurnDiff => event_kind_text(event) == "turn_diff"@,
            EventMsg::RealtimeConversationListVoicesResponse => event_kind_text(event) == "realtime_conversation_list_voices_response"@,
            EventMsg::PlanUpdate => event_kind_text(event) == "plan_update"@,
            EventMsg::SpineTreeUpdate => event_kind_text(event) == "spine_tree_update"@,
            EventMsg::SpineSpawnProgress => event_kind_text(event) == "spine_spawn_progress"@,
            EventMsg::TurnAborted => event_kind_text(event) == "turn_aborted"@,
            EventMsg::ShutdownComplete => event_kind_text(event) == "shutdown_complete"@,
            EventMsg::EnteredReviewMode => event_kind_text(event) == "entered_review_mode"@,
            EventMsg::ExitedReviewMode => event_kind_text(event) == "exited_review_mode"@,
            EventMsg::RawResponseItem => event_kind_text(event) == "raw_response_item"@,
            EventMsg::RawResponseCompleted => event_kind_text(event) == "raw_response_completed"@,
            EventMsg::ItemStarted => event_kind_text(event) == "item_started"@,
            EventMsg::ItemCompleted => event_kind_text(event) == "item_completed"@,
            EventMsg::HookStarted => event_kind_text(event) == "hook_started"@,
            EventMsg::HookCompleted => event_kind_text(event) == "hook_completed"@,
            EventMsg::AgentMessageContentDelta => event_kind_text(event) == "agent_message_content_delta"@,
            EventMsg::PlanDelta => event_kind_text(event) == "plan_delta"@,
            EventMsg::ReasoningContentDelta => event_kind_text(event) == "reasoning_content_delta"@,
            EventMsg::ReasoningRawContentDelta => event_kind_text(event) == "reasoning_raw_content_delta"@,
            EventMsg::CollabAgentSpawnBegin => event_kind_text(event) == "collab_agent_spawn_begin"@,
            EventMsg::CollabAgentSpawnEnd => event_kind_text(event) == "collab_agent_spawn_end"@,
            EventMsg::CollabAgentInteractionBegin => event_kind_text(event) == "collab_agent_interaction_begin"@,
            EventMsg::CollabAgentInteractionEnd => event_kind_text(event) == "collab_agent_interaction_end"@,
            EventMsg::CollabWaitingBegin => event_kind_text(event) == "collab_waiting_begin"@,
            EventMsg::CollabWaitingEnd => event_kind_text(event) == "collab_waiting_end"@,
            EventMsg::CollabCloseBegin => event_kind_text(event) == "collab_close_begin"@,
            EventMsg::CollabCloseEnd => event_kind_text(event) == "collab_close_end"@,
            EventMsg::CollabResumeBegin => event_kind_text(event) == "collab_resume_begin"@,
            EventMsg::CollabResumeEnd => event_kind_text(event) == "collab_resume_end"@,
            EventMsg::SubAgentActivity => event_kind_text(event) == "sub_agent_activity"@,
            EventMsg::AuthRecoveryStarted => event_kind_text(event) == "auth_recovery_started"@,
            EventMsg::AuthRecoveryCompleted => event_kind_text(event) == "auth_recovery_completed"@,
            EventMsg::ThreadQueueChanged => event_kind_text(event) == "thread_queue_changed"@,
        },
{
}

/// A line may declare no event but by the name of one, or, for the beginning and
/// the end of a turn, by the turn's.
pub proof fn only_names_of_events_are_known(kind: Seq<char>)
    ensures
        known_event_type(kind) <==> kind == "turn_started"@ || kind == "turn_complete"@ || exists|
            event: EventMsg,
        |
            !(event is AuthRecoveryStarted || event is AuthRecoveryCompleted
                || event is ThreadQueueChanged) && #[trigger] event_kind_text(event) == kind,
{
    assert forall|event: EventMsg|
        !(event is AuthRecoveryStarted || event is AuthRecoveryCompleted
            || event is ThreadQueueChanged) implies known_event_type(
        #[trigger] event_kind_text(event),
    ) by {
        events_have_known_names(event);
    }
    assert(event_kind_text(EventMsg::Error) == "error"@);
    assert(event_kind_text(EventMsg::Warning) == "warning"@);
    assert(event_kind_text(EventMsg::GuardianWarning) == "guardian_warning"@);
    assert(event_kind_text(EventMsg::RealtimeConversationStarted) == "realtime_conversation_started"@);
    assert(event_kind_text(EventMsg::RealtimeConversationRealtime) == "realtime_conversation_realtime"@);
    assert(event_kind_text(EventMsg::RealtimeConversationClosed) == "realtime_conversation_closed"@);
    assert(event_kind_text(EventMsg::RealtimeConversationSdp) == "realtime_conversation_sdp"@);
    assert(event_kind_text(EventMsg::ModelReroute) == "model_reroute"@);
    assert(event_kind_text(EventMsg::ModelVerification) == "model_verification"@);
    assert(event_kind_text(EventMsg::TurnModerationMetadata) == "turn_moderation_metadata"@);
    assert(event_kind_text(EventMsg::SafetyBuffering) == "safety_buffering"@);
    assert(event_kind_text(EventMsg::ContextCompacted) == "context_compacted"@);
    assert(event_kind_text(EventMsg::ThreadRolledBack { num_turns: 0 }) == "thread_rolled_back"@);
    assert(event_kind_text(EventMsg::TurnStarted) == "task_started"@);
    assert(event_kind_text(EventMsg::ThreadSettingsApplied) == "thread_settings_applied"@);
    assert(event_kind_text(EventMsg::TurnComplete) == "task_complete"@);
    assert(event_kind_text(EventMsg::TokenCount { info: None }) == "token_count"@);
    assert(event_kind_text(EventMsg::AgentMessage) == "agent_message"@);
    assert(event_kind_text(EventMsg::UserMessage) == "user_message"@);
    assert(event_kind_text(EventMsg::AgentReasoning) == "agent_reasoning"@);
    assert(event_kind_text(EventMsg::AgentReasoningRawContent) == "agent_reasoning_raw_content"@);
    assert(event_kind_text(EventMsg::AgentReasoningSectionBreak) == "agent_reasoning_section_break"@);
    assert(event_kind_text(EventMsg::SessionConfigured) == "session_configured"@);
    assert(event_kind_text(EventMsg::EnvironmentConnected) == "environment_connected"@);
    assert(event_kind_text(EventMsg::EnvironmentDisconnected) == "environment_disconnected"@);
    assert(event_kind_text(EventMsg::ThreadGoalUpdated) == "thread_goal_updated"@);
    assert(event_kind_text(EventMsg::McpStartupUpdate) == "mcp_startup_update"@);
    assert(event_kind_text(EventMsg::McpStartupComplete) == "mcp_startup_complete"@);
    assert(event_kind_text(EventMsg::McpToolCallBegin) == "mcp_tool_call_begin"@);
    assert(event_kind_text(EventMsg::McpToolCallEnd) == "mcp_tool_call_end"@);
    assert(event_kind_text(EventMsg::WebSearchBegin) == "web_search_begin"@);
    assert(event_kind_text(EventMsg::WebSearchEnd) == "web_search_end"@);
    assert(event_kind_text(EventMsg::ImageGenerationBegin) == "image_generation_begin"@);
    assert(event_kind_text(EventMsg::ImageGenerationEnd) == "image_generation_end"@);
    assert(event_kind_text(EventMsg::ExecCommandBegin) == "exec_command_begin"@);
    assert(event_kind_text(EventMsg::ExecCommandOutputDelta) == "exec_command_output_delta"@);
    assert(event_kind_text(EventMsg::TerminalInteraction) == "terminal_interaction"@);
    assert(event_kind_text(EventMsg::ExecCommandEnd) == "exec_command_end"@);
    assert(event_kind_text(EventMsg::ViewImageToolCall) == "view_image_tool_call"@);
    assert(event_kind_text(EventMsg::ExecApprovalRequest) == "exec_approval_request"@);
    assert(event_kind_text(EventMsg::RequestPermissions) == "request_permissions"@);
    assert(event_kind_text(EventMsg::RequestUserInput) == "request_user_input"@);
    assert(event_kind_text(EventMsg::DynamicToolCallRequest) == "dynamic_tool_call_request"@);
    assert(event_kind_text(EventMsg::DynamicToolCallResponse) == "dynamic_tool_call_response"@);
    assert(event_kind_text(EventMsg::ElicitationRequest) == "elicitation_request"@);
    assert(event_kind_text(EventMsg::ApplyPatchApprovalRequest) == "apply_patch_approval_request"@);
    assert(event_kind_text(EventMsg::GuardianAssessment) == "guardian_assessment"@);
    assert(event_kind_text(EventMsg::DeprecationNotice) == "deprecation_notice"@);
    assert(event_kind_text(EventMsg::StreamError) == "stream_error"@);
    assert(event_kind_text(EventMsg::PatchApplyBegin) == "patch_apply_begin"@);
    assert(event_kind_text(EventMsg::PatchApplyUpdated) == "patch_apply_updated"@);
    assert(event_kind_text(EventMsg::PatchApplyEnd) == "patch_apply_end"@);
    assert(event_kind_text(EventMsg::TurnDiff) == "turn_diff"@);
    assert(event_kind_text(EventMsg::RealtimeConversationListVoicesResponse) == "realtime_conversation_list_voices_response"@);
    assert(event_kind_text(EventMsg::PlanUpdate) == "plan_update"@);
    assert(event_kind_text(EventMsg::SpineTreeUpdate) == "spine_tree_update"@);
    assert(event_kind_text(EventMsg::SpineSpawnProgress) == "spine_spawn_progress"@);
    assert(event_kind_text(EventMsg::TurnAborted) == "turn_aborted"@);
    assert(event_kind_text(EventMsg::ShutdownComplete) == "shutdown_complete"@);
    assert(event_kind_text(EventMsg::EnteredReviewMode) == "entered_review_mode"@);
    assert(event_kind_text(EventMsg::ExitedReviewMode) == "exited_review_mode"@);
    assert(event_kind_text(EventMsg::RawResponseItem) == "raw_response_item"@);
    assert(event_kind_text(EventMsg::RawResponseCompleted) == "raw_response_completed"@);
    assert(event_kind_text(EventMsg::ItemStarted) == "item_started"@);
    assert(event_kind_text(EventMsg::ItemCompleted) == "item_completed"@);
    assert(event_kind_text(EventMsg::HookStarted) == "hook_started"@);
    assert(event_kind_text(EventMsg::HookCompleted) == "hook_completed"@);
    assert(event_kind_text(EventMsg::AgentMessageContentDelta) == "agent_message_content_delta"@);
    assert(event_kind_text(EventMsg::PlanDelta) == "plan_delta"@);
    assert(event_kind_text(EventMsg::ReasoningContentDelta) == "reasoning_content_delta"@);
    assert(event_kind_text(EventMsg::ReasoningRawContentDelta) == "reasoning_raw_content_delta"@);
    assert(event_kind_text(EventMsg::CollabAgentSpawnBegin) == "collab_agent_spawn_begin"@);
    assert(event_kind_text(EventMsg::CollabAgentSpawnEnd) == "collab_agent_spawn_end"@);
    assert(event_kind_text(EventMsg::CollabAgentInteractionBegin) == "collab_agent_interaction_begin"@);
    assert(event_kind_text(EventMsg::CollabAgentInteractionEnd) == "collab_agent_interaction_end"@);
    assert(event_kind_text(EventMsg::CollabWaitingBegin) == "collab_waiting_begin"@);
    assert(event_kind_text(EventMsg::CollabWaitingEnd) == "collab_waiting_end"@);
    assert(event_kind_text(EventMsg::CollabCloseBegin) == "collab_close_begin"@);
    assert(event_kind_text(EventMsg::CollabCloseEnd) == "collab_close_end"@);
    assert(event_kind_text(EventMsg::CollabResumeBegin) == "collab_resume_begin"@);
    assert(event_kind_text(EventMsg::CollabResumeEnd) == "collab_resume_end"@);
    assert(event_kind_text(EventMsg::SubAgentActivity) == "sub_agent_activity"@);
}

} // verus!

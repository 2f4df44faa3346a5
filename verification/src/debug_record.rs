//! Content-erased observations of native rollout records.
//!
//! The list-bearing types have a mathematical model, in which sequences stand
//! for vectors; their views give it.

use vstd::prelude::*;

verus! {

/// A non-replayable, content-erased observation of one native rollout record.
#[allow(inconsistent_fields)]
#[derive(Debug, PartialEq)]
pub enum DebugRolloutRecord {
    MalformedRedacted { scope: DebugPlaceholderScope },
    UnknownRedacted { scope: DebugPlaceholderScope },
    OversizedRedacted,
    TokenUsageRecord { usage: DebugTokenUsage },
    SecurityRiskScore,
    RealtimeItem,
    SessionMeta {
        session_id: u64,
        thread_id: u64,
        forked_from_thread_id: Option<u64>,
        parent_thread_id: Option<u64>,
        context_window_id: Option<u64>,
        dynamic_tool_count: usize,
        capability_root_count: usize,
    },
    ResponseItem { item: DebugResponseItem },
    InterAgentCommunication {
        id: Option<u64>,
        author: u64,
        recipient: u64,
        other_recipients: Vec<u64>,
        trigger_turn: bool,
        encrypted: bool,
        turn_id: Option<u64>,
    },
    InterAgentCommunicationMetadata { trigger_turn: bool },
    Compacted {
        replacement_history: Option<Vec<DebugResponseItem>>,
        window_number: Option<u64>,
        first_window_id: Option<u64>,
        previous_window_id: Option<u64>,
        window_id: Option<u64>,
    },
    TurnContext {
        turn_id: Option<u64>,
        workspace_root_count: Option<usize>,
        realtime_active: Option<bool>,
    },
    WorldState { full: bool },
    Event { event: DebugEvent },
}

impl DebugRolloutRecord {
    /// The placeholder of a source line that is over the retained-byte bound.
    pub fn oversized() -> (r: Self)
        ensures
            r == DebugRolloutRecord::OversizedRedacted,
    {
        Self::OversizedRedacted
    }
}

#[derive(Clone, Copy, Debug, PartialEq, Eq, Structural)]
pub enum DebugPlaceholderScope {
    Line,
    TopLevel,
    ResponseItem,
    Event,
}

#[allow(inconsistent_fields)]
#[derive(Debug, PartialEq)]
pub enum DebugResponseItem {
    AdditionalTools { id: Option<u64>, tool_count: usize },
    Message {
        id: Option<u64>,
        role: DebugMessageRole,
        phase: Option<DebugMessagePhase>,
        content: Vec<DebugContentKind>,
        turn_id: Option<u64>,
    },
    AgentMessage { id: Option<u64>, content: Vec<DebugAgentContentKind>, turn_id: Option<u64> },
    Reasoning {
        id: Option<u64>,
        summary_count: usize,
        content: Option<Vec<DebugReasoningContentKind>>,
        encrypted: bool,
        turn_id: Option<u64>,
    },
    LocalShellCall {
        id: Option<u64>,
        call_id: Option<u64>,
        status: DebugShellStatus,
        command_part_count: usize,
        timeout_present: bool,
        working_directory_present: bool,
        environment_entry_count: Option<usize>,
        user_present: bool,
        turn_id: Option<u64>,
    },
    FunctionCall {
        id: Option<u64>,
        call_id: u64,
        tool: DebugToolKind,
        arguments: DebugToolArguments,
        turn_id: Option<u64>,
    },
    ToolSearchCall {
        id: Option<u64>,
        call_id: Option<u64>,
        status_present: bool,
        arguments: DebugJsonValueShape,
        turn_id: Option<u64>,
    },
    FunctionCallOutput {
        id: Option<u64>,
        call_id: Option<u64>,
        output: DebugToolOutput,
        turn_id: Option<u64>,
    },
    CustomToolCall {
        id: Option<u64>,
        call_id: u64,
        tool: DebugToolKind,
        status_present: bool,
        arguments: DebugToolArguments,
        turn_id: Option<u64>,
    },
    CustomToolCallOutput {
        id: Option<u64>,
        call_id: u64,
        output_name: DebugOutputName,
        output: DebugToolOutput,
        turn_id: Option<u64>,
    },
    ToolSearchOutput {
        id: Option<u64>,
        call_id: Option<u64>,
        tool_count: usize,
        turn_id: Option<u64>,
    },
    WebSearchCall {
        id: Option<u64>,
        status_present: bool,
        action: Option<DebugWebAction>,
        turn_id: Option<u64>,
    },
    ImageGenerationCall {
        id: Option<u64>,
        revised_prompt_present: bool,
        result_present: bool,
        turn_id: Option<u64>,
    },
    Compaction { id: Option<u64>, turn_id: Option<u64> },
    CompactionTrigger,
    ContextCompaction { id: Option<u64>, encrypted: bool, turn_id: Option<u64> },
    Other,
}

#[derive(Clone, Copy, Debug, PartialEq, Eq, Structural)]
pub enum DebugMessageRole {
    User,
    Assistant,
    Developer,
    System,
    Other,
}

#[derive(Clone, Copy, Debug, PartialEq, Eq, Structural)]
pub enum DebugMessagePhase {
    Commentary,
    FinalAnswer,
}

#[derive(Clone, Copy, Debug, PartialEq, Eq, Structural)]
pub enum DebugContentKind {
    InputText,
    InputImage,
    InputAudio,
    OutputText,
}

#[derive(Clone, Copy, Debug, PartialEq, Eq, Structural)]
pub enum DebugAgentContentKind {
    InputText,
    EncryptedContent,
}

#[derive(Clone, Copy, Debug, PartialEq, Eq, Structural)]
pub enum DebugReasoningContentKind {
    ReasoningText,
    Text,
}

#[derive(Clone, Copy, Debug, PartialEq, Eq, Structural)]
pub enum DebugShellStatus {
    Completed,
    InProgress,
    Incomplete,
}

#[derive(Clone, Copy, Debug, PartialEq, Eq, Structural)]
pub enum DebugWebAction {
    Search { query_count: usize },
    OpenPage,
    FindInPage,
    Other,
}

#[derive(Clone, Copy, Debug, PartialEq, Eq, Structural)]
pub enum DebugToolKind {
    SpineOpen,
    SpineClose,
    SpineNext,
    SpineSpawn,
    CodeMode,
    Shell,
    Patch,
    Web,
    Mcp,
    Image,
    Other,
}

/// Whether a tool is one of the Spine controls.
pub open spec fn spine_tool(tool: DebugToolKind) -> bool {
    tool is SpineOpen || tool is SpineClose || tool is SpineNext || tool is SpineSpawn
}

impl DebugToolKind {
    pub fn is_spine(self) -> (r: bool)
        ensures
            r == spine_tool(self),
    {
        match self {
            DebugToolKind::SpineOpen
            | DebugToolKind::SpineClose
            | DebugToolKind::SpineNext
            | DebugToolKind::SpineSpawn => true,
            _ => false,
        }
    }
}

#[derive(Clone, Copy, Debug, PartialEq, Eq, Structural)]
pub enum DebugOutputName {
    Absent,
    Other,
}

#[allow(inconsistent_fields)]
#[derive(Debug, PartialEq)]
pub enum DebugToolArguments {
    Redacted { shape: DebugJsonValueShape },
    Open {
        object: DebugObjectState,
        summary: DebugStringShape,
        unknown_fields: bool,
        valid: bool,
    },
    Close {
        object: DebugObjectState,
        memory: DebugStringShape,
        unknown_fields: bool,
        valid: bool,
    },
    Next {
        object: DebugObjectState,
        summary: DebugStringShape,
        memory: DebugStringShape,
        unknown_fields: bool,
        valid: bool,
    },
    Spawn {
        object: DebugObjectState,
        tasks: DebugCollection<DebugSpawnTaskShape>,
        unknown_fields: bool,
        valid: bool,
    },
}

#[derive(Clone, Copy, Debug, PartialEq, Eq, Structural)]
pub struct DebugSpawnTaskShape {
    pub object: DebugObjectState,
    pub summary: DebugStringShape,
    pub prompt: DebugStringShape,
    pub unknown_fields: bool,
}

#[derive(Clone, Copy, Debug, PartialEq, Eq, Structural)]
pub enum DebugObjectState {
    Object,
    NonObject,
    MalformedJson,
}

#[derive(Clone, Copy, Debug, PartialEq, Eq, Structural)]
pub enum DebugStringShape {
    Missing,
    Null,
    WrongType,
    Empty,
    Whitespace,
    NonEmpty,
}

impl DebugStringShape {
    pub fn is_non_empty(self) -> (r: bool)
        ensures
            r == (self is NonEmpty),
    {
        self == Self::NonEmpty
    }
}

#[derive(Clone, Copy, Debug, PartialEq, Eq, Structural)]
pub struct DebugMappedString {
    pub shape: DebugStringShape,
    pub local_id: Option<u64>,
}

#[derive(Clone, Copy, Debug, PartialEq, Eq, Structural)]
pub enum DebugUnsignedShape {
    Missing,
    Null,
    Unsigned(u64),
    Negative,
    OtherNumber,
    WrongType,
}

#[derive(Debug, PartialEq)]
pub struct DebugCollection<T> {
    pub shape: DebugCollectionShape,
    pub items: Vec<T>,
}

#[derive(Clone, Copy, Debug, PartialEq, Eq, Structural)]
pub enum DebugCollectionShape {
    Missing,
    Null,
    WrongType,
    Array,
}

#[derive(Clone, Copy, Debug, PartialEq, Eq, Structural)]
pub enum DebugJsonValueShape {
    Null,
    Bool,
    Number,
    Text,
    Array(usize),
    Object(usize),
    MalformedJson,
}

#[allow(inconsistent_fields)]
#[derive(Debug, PartialEq)]
pub enum DebugToolOutput {
    Redacted { body: DebugOutputBodyShape },
    Control { exact_success_carrier: bool, body: DebugOutputBodyShape },
    Spawn { receipt: DebugSpawnReceiptShape },
}

#[derive(Debug, PartialEq)]
pub enum DebugOutputBodyShape {
    Text { bytes: usize },
    ContentItems { items: Vec<DebugOutputContentKind> },
}

#[derive(Clone, Copy, Debug, PartialEq, Eq, Structural)]
pub enum DebugOutputContentKind {
    InputText,
    InputImage,
    InputAudio,
    EncryptedContent,
}

#[derive(Debug, PartialEq)]
pub struct DebugSpawnReceiptShape {
    pub object: DebugObjectState,
    pub schema: DebugSchemaShape,
    pub results: DebugCollection<DebugSpawnResultShape>,
    pub unknown_fields: bool,
    pub valid_for_request: bool,
}

#[derive(Clone, Copy, Debug, PartialEq, Eq, Structural)]
pub struct DebugSpawnResultShape {
    pub object: DebugObjectState,
    pub ordinal: DebugUnsignedShape,
    pub outcome: DebugSpawnOutcomeShape,
    pub memory_body: DebugStringShape,
    pub diagnostic: DebugStringShape,
    pub execution_ref: DebugMappedString,
    pub unknown_fields: bool,
}

#[derive(Clone, Copy, Debug, PartialEq, Eq, Structural)]
pub enum DebugSpawnOutcomeShape {
    Missing,
    Null,
    WrongType,
    Empty,
    Whitespace,
    Completed,
    Errored,
    Aborted,
    Other,
}

#[derive(Clone, Copy, Debug, PartialEq, Eq, Structural)]
pub enum DebugSchemaShape {
    Missing,
    Null,
    WrongType,
    Empty,
    Whitespace,
    ExactV1,
    Other,
}

#[derive(Clone, Copy, Debug, PartialEq)]
pub struct DebugEvent {
    pub kind: &'static str,
    pub token_usage: Option<DebugTokenUsageInfo>,
    pub rolled_back_turns: Option<u32>,
}

#[derive(Clone, Copy, Debug, PartialEq, Eq, Structural)]
pub struct DebugTokenUsageInfo {
    pub total: DebugTokenUsage,
    pub last: DebugTokenUsage,
    pub model_context_window: Option<i64>,
}

#[derive(Clone, Copy, Debug, PartialEq, Eq, Structural)]
pub struct DebugTokenUsage {
    pub input_tokens: i64,
    pub cached_input_tokens: i64,
    pub output_tokens: i64,
    pub reasoning_output_tokens: i64,
    pub total_tokens: i64,
}

/// The model of a [`DebugCollection`].
pub ghost struct CollectionModel<T> {
    pub shape: DebugCollectionShape,
    pub items: Seq<T>,
}

/// The model of a [`DebugOutputBodyShape`].
pub ghost enum BodyModel {
    Text { bytes: usize },
    ContentItems { items: Seq<DebugOutputContentKind> },
}

/// The model of a [`DebugSpawnReceiptShape`].
pub ghost struct ReceiptModel {
    pub object: DebugObjectState,
    pub schema: DebugSchemaShape,
    pub results: CollectionModel<DebugSpawnResultShape>,
    pub unknown_fields: bool,
    pub valid_for_request: bool,
}

/// The model of a [`DebugToolOutput`].
#[allow(inconsistent_fields)]
pub ghost enum OutputModel {
    Redacted { body: BodyModel },
    Control { exact_success_carrier: bool, body: BodyModel },
    Spawn { receipt: ReceiptModel },
}

/// The model of a [`DebugToolArguments`]: a spawn request keeps its task list
/// as a sequence, every other form is itself.
pub ghost enum ArgumentsModel {
    Plain(DebugToolArguments),
    Spawn {
        object: DebugObjectState,
        tasks: CollectionModel<DebugSpawnTaskShape>,
        unknown_fields: bool,
        valid: bool,
    },
}

/// The model of a [`DebugResponseItem`]: the list-bearing variants keep
/// sequences, every other variant is itself.
#[allow(inconsistent_fields)]
pub ghost enum ItemModel {
    Plain(DebugResponseItem),
    Message {
        id: Option<u64>,
        role: DebugMessageRole,
        phase: Option<DebugMessagePhase>,
        content: Seq<DebugContentKind>,
        turn_id: Option<u64>,
    },
    AgentMessage { id: Option<u64>, content: Seq<DebugAgentContentKind>, turn_id: Option<u64> },
    Reasoning {
        id: Option<u64>,
        summary_count: usize,
        content: Option<Seq<DebugReasoningContentKind>>,
        encrypted: bool,
        turn_id: Option<u64>,
    },
    FunctionCall {
        id: Option<u64>,
        call_id: u64,
        tool: DebugToolKind,
        arguments: ArgumentsModel,
        turn_id: Option<u64>,
    },
    FunctionCallOutput {
        id: Option<u64>,
        call_id: Option<u64>,
        output: OutputModel,
        turn_id: Option<u64>,
    },
    CustomToolCall {
        id: Option<u64>,
        call_id: u64,
        tool: DebugToolKind,
        status_present: bool,
        arguments: ArgumentsModel,
        turn_id: Option<u64>,
    },
    CustomToolCallOutput {
        id: Option<u64>,
        call_id: u64,
        output_name: DebugOutputName,
        output: OutputModel,
        turn_id: Option<u64>,
    },
}

/// The model of a [`DebugEvent`].
pub ghost struct EventModel {
    pub kind: Seq<char>,
    pub token_usage: Option<DebugTokenUsageInfo>,
    pub rolled_back_turns: Option<u32>,
}

/// The model of a [`DebugRolloutRecord`]: the list-bearing variants keep
/// sequences, every other variant is itself.
#[allow(inconsistent_fields)]
pub ghost enum RecordModel {
    Plain(DebugRolloutRecord),
    ResponseItem { item: ItemModel },
    InterAgentCommunication {
        id: Option<u64>,
        author: u64,
        recipient: u64,
        other_recipients: Seq<u64>,
        trigger_turn: bool,
        encrypted: bool,
        turn_id: Option<u64>,
    },
    Compacted {
        replacement_history: Option<Seq<ItemModel>>,
        window_number: Option<u64>,
        first_window_id: Option<u64>,
        previous_window_id: Option<u64>,
        window_id: Option<u64>,
    },
    Event { event: EventModel },
}

impl<T> View for DebugCollection<T> {
    type V = CollectionModel<T>;

    open spec fn view(&self) -> CollectionModel<T> {
        CollectionModel { shape: self.shape, items: self.items@ }
    }
}

impl View for DebugOutputBodyShape {
    type V = BodyModel;

    open spec fn view(&self) -> BodyModel {
        match *self {
            DebugOutputBodyShape::Text { bytes } => BodyModel::Text { bytes },
            DebugOutputBodyShape::ContentItems { items } => BodyModel::ContentItems {
                items: items@,
            },
        }
    }
}

impl View for DebugSpawnReceiptShape {
    type V = ReceiptModel;

    open spec fn view(&self) -> ReceiptModel {
        ReceiptModel {
            object: self.object,
            schema: self.schema,
            results: self.results@,
            unknown_fields: self.unknown_fields,
            valid_for_request: self.valid_for_request,
        }
    }
}

impl View for DebugToolOutput {
    type V = OutputModel;

    open spec fn view(&self) -> OutputModel {
        match *self {
            DebugToolOutput::Redacted { body } => OutputModel::Redacted { body: body@ },
            DebugToolOutput::Control { exact_success_carrier, body } => OutputModel::Control {
                exact_success_carrier,
                body: body@,
            },
            DebugToolOutput::Spawn { receipt } => OutputModel::Spawn { receipt: receipt@ },
        }
    }
}

impl View for DebugToolArguments {
    type V = ArgumentsModel;

    open spec fn view(&self) -> ArgumentsModel {
        match *self {
            DebugToolArguments::Spawn { object, tasks, unknown_fields, valid } => {
                ArgumentsModel::Spawn { object, tasks: tasks@, unknown_fields, valid }
            },
            _ => ArgumentsModel::Plain(*self),
        }
    }
}

impl View for DebugResponseItem {
    type V = ItemModel;

    open spec fn view(&self) -> ItemModel {
        match *self {
            DebugResponseItem::Message { id, role, phase, content, turn_id } => {
                ItemModel::Message { id, role, phase, content: content@, turn_id }
            },
            DebugResponseItem::AgentMessage { id, content, turn_id } => {
                ItemModel::AgentMessage { id, content: content@, turn_id }
            },
            DebugResponseItem::Reasoning { id, summary_count, content, encrypted, turn_id } => {
                ItemModel::Reasoning {
                    id,
                    summary_count,
                    content: match content {
                        Some(items) => Some(items@),
                        None => None,
                    },
                    encrypted,
                    turn_id,
                }
            },
            DebugResponseItem::FunctionCall { id, call_id, tool, arguments, turn_id } => {
                ItemModel::FunctionCall { id, call_id, tool, arguments: arguments@, turn_id }
            },
            DebugResponseItem::FunctionCallOutput { id, call_id, output, turn_id } => {
                ItemModel::FunctionCallOutput { id, call_id, output: output@, turn_id }
            },
            DebugResponseItem::CustomToolCall {
                id,
                call_id,
                tool,
                status_present,
                arguments,
                turn_id,
            } => ItemModel::CustomToolCall {
                id,
                call_id,
                tool,
                status_present,
                arguments: arguments@,
                turn_id,
            },
            DebugResponseItem::CustomToolCallOutput {
                id,
                call_id,
                output_name,
                output,
                turn_id,
            } => ItemModel::CustomToolCallOutput {
                id,
                call_id,
                output_name,
                output: output@,
                turn_id,
            },
            _ => ItemModel::Plain(*self),
        }
    }
}

impl View for DebugEvent {
    type V = EventModel;

    open spec fn view(&self) -> EventModel {
        EventModel {
            kind: self.kind@,
            token_usage: self.token_usage,
            rolled_back_turns: self.rolled_back_turns,
        }
    }
}

/// The models of a list of items.
pub open spec fn item_models(items: Seq<DebugResponseItem>) -> Seq<ItemModel> {
    items.map_values(|item: DebugResponseItem| item@)
}

impl View for DebugRolloutRecord {
    type V = RecordModel;

    open spec fn view(&self) -> RecordModel {
        match *self {
            DebugRolloutRecord::ResponseItem { item } => RecordModel::ResponseItem { item: item@ },
            DebugRolloutRecord::InterAgentCommunication {
                id,
                author,
                recipient,
                other_recipients,
                trigger_turn,
                encrypted,
                turn_id,
            } => RecordModel::InterAgentCommunication {
                id,
                author,
                recipient,
                other_recipients: other_recipients@,
                trigger_turn,
                encrypted,
                turn_id,
            },
            DebugRolloutRecord::Compacted {
                replacement_history,
                window_number,
                first_window_id,
                previous_window_id,
                window_id,
            } => RecordModel::Compacted {
                replacement_history: match replacement_history {
                    Some(items) => Some(item_models(items@)),
                    None => None,
                },
                window_number,
                first_window_id,
                previous_window_id,
                window_id,
            },
            DebugRolloutRecord::Event { event } => RecordModel::Event { event: event@ },
            _ => RecordModel::Plain(*self),
        }
    }
}

} // verus!

//! Native rollout records, as far as the diagnostic redactor reads them.

use crate::json::Json;
use crate::spawn_tasks::RequestValidation;
use vstd::prelude::*;

verus! {

/// What a structural scan of one text found: how many JSON nodes it entered
/// (object keys count as well as values) and whether the whole text is one
/// JSON value.
///
/// A scanner may stop counting once it is past every limit that it could be
/// held against.
#[derive(Clone, Copy, Debug, PartialEq, Eq, Structural)]
pub struct JsonScan {
    pub nodes: usize,
    pub well_formed: bool,
}

/// The argument text of a tool call.
#[derive(Debug)]
pub struct ToolText {
    pub text: String,
    /// The structural scan of `text`.
    pub scan: JsonScan,
    /// What the tool protocol makes of `text` as the arguments of a spawn call.
    pub request: Result<RequestValidation, String>,
}

/// The body of a tool output.
#[derive(Debug)]
pub enum OutputBody {
    Text(String),
    ContentItems(Vec<OutputContent>),
}

#[derive(Clone, Copy, Debug, PartialEq, Eq, Structural)]
pub enum OutputContent {
    InputText,
    InputImage,
    InputAudio,
    EncryptedContent,
}

/// A tool output, with what the host's receipt codec says of the raw output.
#[derive(Debug)]
pub struct ToolOutput {
    pub body: OutputBody,
    /// The structural scan of the raw output, where that is a text.
    pub scan: JsonScan,
    /// The request sizes for which the raw output is a valid spawn receipt.
    pub receipt_sizes: Vec<usize>,
}

#[derive(Clone, Copy, Debug, PartialEq, Eq, Structural)]
pub enum MessagePhase {
    Commentary,
    FinalAnswer,
}

#[derive(Clone, Copy, Debug, PartialEq, Eq, Structural)]
pub enum ContentKind {
    InputText,
    InputImage,
    InputAudio,
    OutputText,
}

#[derive(Clone, Copy, Debug, PartialEq, Eq, Structural)]
pub enum AgentContentKind {
    InputText,
    EncryptedContent,
}

#[derive(Clone, Copy, Debug, PartialEq, Eq, Structural)]
pub enum ReasoningContentKind {
    ReasoningText,
    Text,
}

#[derive(Clone, Copy, Debug, PartialEq, Eq, Structural)]
pub enum LocalShellStatus {
    Completed,
    InProgress,
    Incomplete,
}

/// A web search action; `Search` keeps whether it has a single query and how
/// many further queries it lists.
#[derive(Clone, Copy, Debug, PartialEq, Eq, Structural)]
pub enum WebSearchAction {
    Search { query: bool, queries: Option<usize> },
    OpenPage,
    FindInPage,
    Other,
}

/// A model-visible item of a native rollout.
#[allow(inconsistent_fields)]
#[derive(Debug)]
pub enum ResponseItem {
    AdditionalTools { id: Option<String>, tool_count: usize },
    Message {
        id: Option<String>,
        role: String,
        content: Vec<ContentKind>,
        phase: Option<MessagePhase>,
        turn_id: Option<String>,
    },
    AgentMessage { id: Option<String>, content: Vec<AgentContentKind>, turn_id: Option<String> },
    Reasoning {
        id: Option<String>,
        summary_count: usize,
        content: Option<Vec<ReasoningContentKind>>,
        encrypted: bool,
        turn_id: Option<String>,
    },
    LocalShellCall {
        id: Option<String>,
        call_id: Option<String>,
        status: LocalShellStatus,
        command_part_count: usize,
        timeout_present: bool,
        working_directory_present: bool,
        environment_entry_count: Option<usize>,
        user_present: bool,
        turn_id: Option<String>,
    },
    FunctionCall {
        id: Option<String>,
        name: String,
        namespace: Option<String>,
        /// Whether the host's code mode claims this tool name.
        code_mode: bool,
        arguments: ToolText,
        call_id: String,
        turn_id: Option<String>,
    },
    ToolSearchCall {
        id: Option<String>,
        call_id: Option<String>,
        status_present: bool,
        arguments: Json,
        turn_id: Option<String>,
    },
    FunctionCallOutput {
        id: Option<String>,
        call_id: Option<String>,
        output: ToolOutput,
        turn_id: Option<String>,
    },
    CustomToolCall {
        id: Option<String>,
        status_present: bool,
        call_id: String,
        name: String,
        namespace: Option<String>,
        /// Whether the host's code mode claims this tool name.
        code_mode: bool,
        input: ToolText,
        turn_id: Option<String>,
    },
    CustomToolCallOutput {
        id: Option<String>,
        call_id: String,
        name_present: bool,
        output: ToolOutput,
        turn_id: Option<String>,
    },
    ToolSearchOutput {
        id: Option<String>,
        call_id: Option<String>,
        tool_count: usize,
        turn_id: Option<String>,
    },
    WebSearchCall {
        id: Option<String>,
        status_present: bool,
        action: Option<WebSearchAction>,
        turn_id: Option<String>,
    },
    ImageGenerationCall {
        id: Option<String>,
        revised_prompt_present: bool,
        result_present: bool,
        turn_id: Option<String>,
    },
    Compaction { id: Option<String>, turn_id: Option<String> },
    CompactionTrigger,
    ContextCompaction { id: Option<String>, encrypted: bool, turn_id: Option<String> },
    Other,
}

#[derive(Clone, Copy, Debug, PartialEq, Eq, Structural)]
pub struct TokenUsage {
    pub input_tokens: i64,
    pub cached_input_tokens: i64,
    pub output_tokens: i64,
    pub reasoning_output_tokens: i64,
    pub total_tokens: i64,
}

#[derive(Clone, Copy, Debug, PartialEq, Eq, Structural)]
pub struct TokenUsageInfo {
    pub total_token_usage: TokenUsage,
    pub last_token_usage: TokenUsage,
    pub model_context_window: Option<i64>,
}

/// A session event; only the payloads that are inspected are kept.
#[derive(Clone, Copy, Debug, PartialEq, Eq, Structural)]
pub enum EventMsg {
    TokenCount { info: Option<TokenUsageInfo> },
    ThreadRolledBack { num_turns: u32 },
    Error,
    Warning,
    GuardianWarning,
    RealtimeConversationStarted,
    RealtimeConversationRealtime,
    RealtimeConversationClosed,
    RealtimeConversationSdp,
    ModelReroute,
    ModelVerification,
    TurnModerationMetadata,
    SafetyBuffering,
    ContextCompacted,
    TurnStarted,
    ThreadSettingsApplied,
    TurnComplete,
    AgentMessage,
    UserMessage,
    AgentReasoning,
    AgentReasoningRawContent,
    AgentReasoningSectionBreak,
    SessionConfigured,
    EnvironmentConnected,
    EnvironmentDisconnected,
    ThreadGoalUpdated,
    McpStartupUpdate,
    McpStartupComplete,
    McpToolCallBegin,
    McpToolCallEnd,
    WebSearchBegin,
    WebSearchEnd,
    ImageGenerationBegin,
    ImageGenerationEnd,
    ExecCommandBegin,
    ExecCommandOutputDelta,
    TerminalInteraction,
    ExecCommandEnd,
    ViewImageToolCall,
    ExecApprovalRequest,
    RequestPermissions,
    RequestUserInput,
    DynamicToolCallRequest,
    DynamicToolCallResponse,
    ElicitationRequest,
    ApplyPatchApprovalRequest,
    GuardianAssessment,
    DeprecationNotice,
    StreamError,
    PatchApplyBegin,
    PatchApplyUpdated,
    PatchApplyEnd,
    TurnDiff,
    RealtimeConversationListVoicesResponse,
    PlanUpdate,
    SpineTreeUpdate,
    SpineSpawnProgress,
    TurnAborted,
    ShutdownComplete,
    EnteredReviewMode,
    ExitedReviewMode,
    RawResponseItem,
    RawResponseCompleted,
    ItemStarted,
    ItemCompleted,
    HookStarted,
    HookCompleted,
    AgentMessageContentDelta,
    PlanDelta,
    ReasoningContentDelta,
    ReasoningRawContentDelta,
    CollabAgentSpawnBegin,
    CollabAgentSpawnEnd,
    CollabAgentInteractionBegin,
    CollabAgentInteractionEnd,
    CollabWaitingBegin,
    CollabWaitingEnd,
    CollabCloseBegin,
    CollabCloseEnd,
    CollabResumeBegin,
    CollabResumeEnd,
    AuthRecoveryStarted,
    AuthRecoveryCompleted,
    ThreadQueueChanged,
    SubAgentActivity,
}

/// One native rollout record.
#[derive(Debug)]
pub enum RolloutItem {
    SessionMeta {
        session_id: String,
        thread_id: String,
        forked_from_id: Option<String>,
        parent_thread_id: Option<String>,
        context_window_id: Option<String>,
        dynamic_tool_count: Option<usize>,
        capability_root_count: usize,
    },
    ResponseItem(ResponseItem),
    InterAgentCommunication {
        id: Option<String>,
        author: String,
        recipient: String,
        other_recipients: Vec<String>,
        trigger_turn: bool,
        encrypted: bool,
        turn_id: Option<String>,
    },
    InterAgentCommunicationMetadata { trigger_turn: bool },
    Compacted {
        replacement_history: Option<Vec<ResponseItem>>,
        window_number: Option<u64>,
        first_window_id: Option<String>,
        previous_window_id: Option<String>,
        window_id: Option<String>,
    },
    TurnContext {
        turn_id: Option<String>,
        workspace_root_count: Option<usize>,
        realtime_active: Option<bool>,
    },
    WorldState { full: bool },
    EventMsg(EventMsg),
    TokenUsageRecord { usage: TokenUsage },
    SecurityRiskScore,
    RealtimeItem,
    SpineSamplingStarted,
    SpineTransition,
}

} // verus!

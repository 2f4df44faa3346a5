//! Stateless classification of rollout content: tool kinds, record types and
//! the shapes of JSON values.

use crate::debug_record::{
    DebugAgentContentKind, DebugCollection, DebugCollectionShape, DebugContentKind, DebugEvent,
    DebugJsonValueShape, DebugMessagePhase, DebugMessageRole, DebugObjectState,
    DebugOutputBodyShape, DebugOutputContentKind, DebugReasoningContentKind, DebugSchemaShape,
    DebugShellStatus, DebugSpawnOutcomeShape, DebugSpawnTaskShape, DebugStringShape,
    DebugTokenUsage, DebugTokenUsageInfo, DebugToolKind, DebugUnsignedShape, DebugWebAction,
};
use crate::json::{field, has_unknown_fields, Json};
use crate::rollout::{
    AgentContentKind, ContentKind, EventMsg, LocalShellStatus, MessagePhase, OutputBody,
    OutputContent, ReasoningContentKind, TokenUsage, WebSearchAction,
};
use crate::text::{byte_size, is_blank, same_text};
use vstd::prelude::*;

verus! {

use crate::debug_record::{BodyModel, CollectionModel, EventModel};
use crate::json::{deref_option, field_of, name_views, unknown_fields};
use crate::text::{blank, byte_len};

/// The record types that a rollout line may declare.
pub open spec fn known_rollout_item_type(kind: Seq<char>) -> bool {
    ||| kind == "session_meta"@
    ||| kind == "response_item"@
    ||| kind == "inter_agent_communication"@
    ||| kind == "inter_agent_communication_metadata"@
    ||| kind == "compacted"@
    ||| kind == "turn_context"@
    ||| kind == "world_state"@
    ||| kind == "event_msg"@
}

pub fn is_known_rollout_item_type(kind: &str) -> (r: bool)
    ensures
        r == known_rollout_item_type(kind@),
{
    same_text(kind, "session_meta") || same_text(kind, "response_item") || same_text(
        kind,
        "inter_agent_communication",
    ) || same_text(kind, "inter_agent_communication_metadata") || same_text(kind, "compacted")
        || same_text(kind, "turn_context") || same_text(kind, "world_state") || same_text(
        kind,
        "event_msg",
    )
}

/// The item types that a response item may declare.
pub open spec fn known_response_item_type(kind: Seq<char>) -> bool {
    ||| kind == "additional_tools"@
    ||| kind == "message"@
    ||| kind == "agent_message"@
    ||| kind == "reasoning"@
    ||| kind == "local_shell_call"@
    ||| kind == "function_call"@
    ||| kind == "tool_search_call"@
    ||| kind == "function_call_output"@
    ||| kind == "custom_tool_call"@
    ||| kind == "custom_tool_call_output"@
    ||| kind == "tool_search_output"@
    ||| kind == "web_search_call"@
    ||| kind == "image_generation_call"@
    ||| kind == "compaction"@
    ||| kind == "compaction_summary"@
    ||| kind == "compaction_trigger"@
    ||| kind == "context_compaction"@
    ||| kind == "other"@
}

pub fn is_known_response_item_type(kind: &str) -> (r: bool)
    ensures
        r == known_response_item_type(kind@),
{
    same_text(kind, "additional_tools") || same_text(kind, "message") || same_text(
        kind,
        "agent_message",
    ) || same_text(kind, "reasoning") || same_text(kind, "local_shell_call") || same_text(
        kind,
        "function_call",
    ) || same_text(kind, "tool_search_call") || same_text(kind, "function_call_output")
        || same_text(kind, "custom_tool_call") || same_text(kind, "custom_tool_call_output")
        || same_text(kind, "tool_search_output") || same_text(kind, "web_search_call")
        || same_text(kind, "image_generation_call") || same_text(kind, "compaction") || same_text(
        kind,
        "compaction_summary",
    ) || same_text(kind, "compaction_trigger") || same_text(kind, "context_compaction")
        || same_text(kind, "other")
}

/// The event types that an event record may declare.
pub open spec fn known_event_type(kind: Seq<char>) -> bool {
    ||| kind == "error"@
    ||| kind == "warning"@
    ||| kind == "guardian_warning"@
    ||| kind == "realtime_conversation_started"@
    ||| kind == "realtime_conversation_realtime"@
    ||| kind == "realtime_conversation_closed"@
    ||| kind == "realtime_conversation_sdp"@
    ||| kind == "model_reroute"@
    ||| kind == "model_verification"@
    ||| kind == "turn_moderation_metadata"@
    ||| kind == "safety_buffering"@
    ||| kind == "context_compacted"@
    ||| kind == "thread_rolled_back"@
    ||| kind == "task_started"@
    ||| kind == "turn_started"@
    ||| kind == "thread_settings_applied"@
    ||| kind == "task_complete"@
    ||| kind == "turn_complete"@
    ||| kind == "token_count"@
    ||| kind == "agent_message"@
    ||| kind == "user_message"@
    ||| kind == "agent_reasoning"@
    ||| kind == "agent_reasoning_raw_content"@
    ||| kind == "agent_reasoning_section_break"@
    ||| kind == "session_configured"@
    ||| kind == "environment_connected"@
    ||| kind == "environment_disconnected"@
    ||| kind == "thread_goal_updated"@
    ||| kind == "mcp_startup_update"@
    ||| kind == "mcp_startup_complete"@
    ||| kind == "mcp_tool_call_begin"@
    ||| kind == "mcp_tool_call_end"@
    ||| kind == "web_search_begin"@
    ||| kind == "web_search_end"@
    ||| kind == "image_generation_begin"@
    ||| kind == "image_generation_end"@
    ||| kind == "exec_command_begin"@
    ||| kind == "exec_command_output_delta"@
    ||| kind == "terminal_interaction"@
    ||| kind == "exec_command_end"@
    ||| kind == "view_image_tool_call"@
    ||| kind == "exec_approval_request"@
    ||| kind == "request_permissions"@
    ||| kind == "request_user_input"@
    ||| kind == "dynamic_tool_call_request"@
    ||| kind == "dynamic_tool_call_response"@
    ||| kind == "elicitation_request"@
    ||| kind == "apply_patch_approval_request"@
    ||| kind == "guardian_assessment"@
    ||| kind == "deprecation_notice"@
    ||| kind == "stream_error"@
    ||| kind == "patch_apply_begin"@
    ||| kind == "patch_apply_updated"@
    ||| kind == "patch_apply_end"@
    ||| kind == "turn_diff"@
    ||| kind == "realtime_conversation_list_voices_response"@
    ||| kind == "plan_update"@
    ||| kind == "spine_tree_update"@
    ||| kind == "spine_spawn_progress"@
    ||| kind == "turn_aborted"@
    ||| kind == "shutdown_complete"@
    ||| kind == "entered_review_mode"@
    ||| kind == "exited_review_mode"@
    ||| kind == "raw_response_item"@
    ||| kind == "raw_response_completed"@
    ||| kind == "item_started"@
    ||| kind == "item_completed"@
    ||| kind == "hook_started"@
    ||| kind == "hook_completed"@
    ||| kind == "agent_message_content_delta"@
    ||| kind == "plan_delta"@
    ||| kind == "reasoning_content_delta"@
    ||| kind == "reasoning_raw_content_delta"@
    ||| kind == "collab_agent_spawn_begin"@
    ||| kind == "collab_agent_spawn_end"@
    ||| kind == "collab_agent_interaction_begin"@
    ||| kind == "collab_agent_interaction_end"@
    ||| kind == "collab_waiting_begin"@
    ||| kind == "collab_waiting_end"@
    ||| kind == "collab_close_begin"@
    ||| kind == "collab_close_end"@
    ||| kind == "collab_resume_begin"@
    ||| kind == "collab_resume_end"@
    ||| kind == "sub_agent_activity"@
}

pub fn is_known_event_type(kind: &str) -> (r: bool)
    ensures
        r == known_event_type(kind@),
{
    same_text(kind, "error")
        || same_text(kind, "warning")
        || same_text(kind, "guardian_warning")
        || same_text(kind, "realtime_conversation_started")
        || same_text(kind, "realtime_conversation_realtime")
        || same_text(kind, "realtime_conversation_closed")
        || same_text(kind, "realtime_conversation_sdp")
        || same_text(kind, "model_reroute")
        || same_text(kind, "model_verification")
        || same_text(kind, "turn_moderation_metadata")
        || same_text(kind, "safety_buffering")
        || same_text(kind, "context_compacted")
        || same_text(kind, "thread_rolled_back")
        || same_text(kind, "task_started")
        || same_text(kind, "turn_started")
        || same_text(kind, "thread_settings_applied")
        || same_text(kind, "task_complete")
        || same_text(kind, "turn_complete")
        || same_text(kind, "token_count")
        || same_text(kind, "agent_message")
        || same_text(kind, "user_message")
        || same_text(kind, "agent_reasoning")
        || same_text(kind, "agent_reasoning_raw_content")
        || same_text(kind, "agent_reasoning_section_break")
        || same_text(kind, "session_configured")
        || same_text(kind, "environment_connected")
        || same_text(kind, "environment_disconnected")
        || same_text(kind, "thread_goal_updated")
        || same_text(kind, "mcp_startup_update")
        || same_text(kind, "mcp_startup_complete")
        || same_text(kind, "mcp_tool_call_begin")
        || same_text(kind, "mcp_tool_call_end")
        || same_text(kind, "web_search_begin")
        || same_text(kind, "web_search_end")
        || same_text(kind, "image_generation_begin")
        || same_text(kind, "image_generation_end")
        || same_text(kind, "exec_command_begin")
        || same_text(kind, "exec_command_output_delta")
        || same_text(kind, "terminal_interaction")
        || same_text(kind, "exec_command_end")
        || same_text(kind, "view_image_tool_call")
        || same_text(kind, "exec_approval_request")
        || same_text(kind, "request_permissions")
        || same_text(kind, "request_user_input")
        || same_text(kind, "dynamic_tool_call_request")
        || same_text(kind, "dynamic_tool_call_response")
        || same_text(kind, "elicitation_request")
        || same_text(kind, "apply_patch_approval_request")
        || same_text(kind, "guardian_assessment")
        || same_text(kind, "deprecation_notice")
        || same_text(kind, "stream_error")
        || same_text(kind, "patch_apply_begin")
        || same_text(kind, "patch_apply_updated")
        || same_text(kind, "patch_apply_end")
        || same_text(kind, "turn_diff")
        || same_text(kind, "realtime_conversation_list_voices_response")
        || same_text(kind, "plan_update")
        || same_text(kind, "spine_tree_update")
        || same_text(kind, "spine_spawn_progress")
        || same_text(kind, "turn_aborted")
        || same_text(kind, "shutdown_complete")
        || same_text(kind, "entered_review_mode")
        || same_text(kind, "exited_review_mode")
        || same_text(kind, "raw_response_item")
        || same_text(kind, "raw_response_completed")
        || same_text(kind, "item_started")
        || same_text(kind, "item_completed")
        || same_text(kind, "hook_started")
        || same_text(kind, "hook_completed")
        || same_text(kind, "agent_message_content_delta")
        || same_text(kind, "plan_delta")
        || same_text(kind, "reasoning_content_delta")
        || same_text(kind, "reasoning_raw_content_delta")
        || same_text(kind, "collab_agent_spawn_begin")
        || same_text(kind, "collab_agent_spawn_end")
        || same_text(kind, "collab_agent_interaction_begin")
        || same_text(kind, "collab_agent_interaction_end")
        || same_text(kind, "collab_waiting_begin")
        || same_text(kind, "collab_waiting_end")
        || same_text(kind, "collab_close_begin")
        || same_text(kind, "collab_close_end")
        || same_text(kind, "collab_resume_begin")
        || same_text(kind, "collab_resume_end")
        || same_text(kind, "sub_agent_activity")
}

/// The wire name of an event.
pub open spec fn event_kind_text(event: EventMsg) -> Seq<char> {
    match event {
        EventMsg::Error => "error"@,
        EventMsg::Warning => "warning"@,
        EventMsg::GuardianWarning => "guardian_warning"@,
        EventMsg::RealtimeConversationStarted => "realtime_conversation_started"@,
        EventMsg::RealtimeConversationRealtime => "realtime_conversation_realtime"@,
        EventMsg::RealtimeConversationClosed => "realtime_conversation_closed"@,
        EventMsg::RealtimeConversationSdp => "realtime_conversation_sdp"@,
        EventMsg::ModelReroute => "model_reroute"@,
        EventMsg::ModelVerification => "model_verification"@,
        EventMsg::TurnModerationMetadata => "turn_moderation_metadata"@,
        EventMsg::SafetyBuffering => "safety_buffering"@,
        EventMsg::ContextCompacted => "context_compacted"@,
        EventMsg::ThreadRolledBack { .. } => "thread_rolled_back"@,
        EventMsg::TurnStarted => "task_started"@,
        EventMsg::ThreadSettingsApplied => "thread_settings_applied"@,
        EventMsg::TurnComplete => "task_complete"@,
        EventMsg::TokenCount { .. } => "token_count"@,
        EventMsg::AgentMessage => "agent_message"@,
        EventMsg::UserMessage => "user_message"@,
        EventMsg::AgentReasoning => "agent_reasoning"@,
        EventMsg::AgentReasoningRawContent => "agent_reasoning_raw_content"@,
        EventMsg::AgentReasoningSectionBreak => "agent_reasoning_section_break"@,
        EventMsg::SessionConfigured => "session_configured"@,
        EventMsg::EnvironmentConnected => "environment_connected"@,
        EventMsg::EnvironmentDisconnected => "environment_disconnected"@,
        EventMsg::ThreadGoalUpdated => "thread_goal_updated"@,
        EventMsg::McpStartupUpdate => "mcp_startup_update"@,
        EventMsg::McpStartupComplete => "mcp_startup_complete"@,
        EventMsg::McpToolCallBegin => "mcp_tool_call_begin"@,
        EventMsg::McpToolCallEnd => "mcp_tool_call_end"@,
        EventMsg::WebSearchBegin => "web_search_begin"@,
        EventMsg::WebSearchEnd => "web_search_end"@,
        EventMsg::ImageGenerationBegin => "image_generation_begin"@,
        EventMsg::ImageGenerationEnd => "image_generation_end"@,
        EventMsg::ExecCommandBegin => "exec_command_begin"@,
        EventMsg::ExecCommandOutputDelta => "exec_command_output_delta"@,
        EventMsg::TerminalInteraction => "terminal_interaction"@,
        EventMsg::ExecCommandEnd => "exec_command_end"@,
        EventMsg::ViewImageToolCall => "view_image_tool_call"@,
        EventMsg::ExecApprovalRequest => "exec_approval_request"@,
        EventMsg::RequestPermissions => "request_permissions"@,
        EventMsg::RequestUserInput => "request_user_input"@,
        EventMsg::DynamicToolCallRequest => "dynamic_tool_call_request"@,
        EventMsg::DynamicToolCallResponse => "dynamic_tool_call_response"@,
        EventMsg::ElicitationRequest => "elicitation_request"@,
        EventMsg::ApplyPatchApprovalRequest => "apply_patch_approval_request"@,
        EventMsg::GuardianAssessment => "guardian_assessment"@,
        EventMsg::DeprecationNotice => "deprecation_notice"@,
        EventMsg::StreamError => "stream_error"@,
        EventMsg::PatchApplyBegin => "patch_apply_begin"@,
        EventMsg::PatchApplyUpdated => "patch_apply_updated"@,
        EventMsg::PatchApplyEnd => "patch_apply_end"@,
        EventMsg::TurnDiff => "turn_diff"@,
        EventMsg::RealtimeConversationListVoicesResponse => "realtime_conversation_list_voices_response"@,
        EventMsg::PlanUpdate => "plan_update"@,
        EventMsg::SpineTreeUpdate => "spine_tree_update"@,
        EventMsg::SpineSpawnProgress => "spine_spawn_progress"@,
        EventMsg::TurnAborted => "turn_aborted"@,
        EventMsg::ShutdownComplete => "shutdown_complete"@,
        EventMsg::EnteredReviewMode => "entered_review_mode"@,
        EventMsg::ExitedReviewMode => "exited_review_mode"@,
        EventMsg::RawResponseItem => "raw_response_item"@,
        EventMsg::RawResponseCompleted => "raw_response_completed"@,
        EventMsg::ItemStarted => "item_started"@,
        EventMsg::ItemCompleted => "item_completed"@,
        EventMsg::HookStarted => "hook_started"@,
        EventMsg::HookCompleted => "hook_completed"@,
        EventMsg::AgentMessageContentDelta => "agent_message_content_delta"@,
        EventMsg::PlanDelta => "plan_delta"@,
        EventMsg::ReasoningContentDelta => "reasoning_content_delta"@,
        EventMsg::ReasoningRawContentDelta => "reasoning_raw_content_delta"@,
        EventMsg::CollabAgentSpawnBegin => "collab_agent_spawn_begin"@,
        EventMsg::CollabAgentSpawnEnd => "collab_agent_spawn_end"@,
        EventMsg::CollabAgentInteractionBegin => "collab_agent_interaction_begin"@,
        EventMsg::CollabAgentInteractionEnd => "collab_agent_interaction_end"@,
        EventMsg::CollabWaitingBegin => "collab_waiting_begin"@,
        EventMsg::CollabWaitingEnd => "collab_waiting_end"@,
        EventMsg::CollabCloseBegin => "collab_close_begin"@,
        EventMsg::CollabCloseEnd => "collab_close_end"@,
        EventMsg::CollabResumeBegin => "collab_resume_begin"@,
        EventMsg::CollabResumeEnd => "collab_resume_end"@,
        EventMsg::SubAgentActivity => "sub_agent_activity"@,
        EventMsg::AuthRecoveryStarted => "auth_recovery_started"@,
        EventMsg::AuthRecoveryCompleted => "auth_recovery_completed"@,
        EventMsg::ThreadQueueChanged => "thread_queue_changed"@,
    }
}

pub fn event_kind(event: &EventMsg) -> (r: &'static str)
    ensures
        r@ == event_kind_text(*event),
{
    match *event {
        EventMsg::Error => "error",
        EventMsg::Warning => "warning",
        EventMsg::GuardianWarning => "guardian_warning",
        EventMsg::RealtimeConversationStarted => "realtime_conversation_started",
        EventMsg::RealtimeConversationRealtime => "realtime_conversation_realtime",
        EventMsg::RealtimeConversationClosed => "realtime_conversation_closed",
        EventMsg::RealtimeConversationSdp => "realtime_conversation_sdp",
        EventMsg::ModelReroute => "model_reroute",
        EventMsg::ModelVerification => "model_verification",
        EventMsg::TurnModerationMetadata => "turn_moderation_metadata",
        EventMsg::SafetyBuffering => "safety_buffering",
        EventMsg::ContextCompacted => "context_compacted",
        EventMsg::ThreadRolledBack { .. } => "thread_rolled_back",
        EventMsg::TurnStarted => "task_started",
        EventMsg::ThreadSettingsApplied => "thread_settings_applied",
        EventMsg::TurnComplete => "task_complete",
        EventMsg::TokenCount { .. } => "token_count",
        EventMsg::AgentMessage => "agent_message",
        EventMsg::UserMessage => "user_message",
        EventMsg::AgentReasoning => "agent_reasoning",
        EventMsg::AgentReasoningRawContent => "agent_reasoning_raw_content",
        EventMsg::AgentReasoningSectionBreak => "agent_reasoning_section_break",
        EventMsg::SessionConfigured => "session_configured",
        EventMsg::EnvironmentConnected => "environment_connected",
        EventMsg::EnvironmentDisconnected => "environment_disconnected",
        EventMsg::ThreadGoalUpdated => "thread_goal_updated",
        EventMsg::McpStartupUpdate => "mcp_startup_update",
        EventMsg::McpStartupComplete => "mcp_startup_complete",
        EventMsg::McpToolCallBegin => "mcp_tool_call_begin",
        EventMsg::McpToolCallEnd => "mcp_tool_call_end",
        EventMsg::WebSearchBegin => "web_search_begin",
        EventMsg::WebSearchEnd => "web_search_end",
        EventMsg::ImageGenerationBegin => "image_generation_begin",
        EventMsg::ImageGenerationEnd => "image_generation_end",
        EventMsg::ExecCommandBegin => "exec_command_begin",
        EventMsg::ExecCommandOutputDelta => "exec_command_output_delta",
        EventMsg::TerminalInteraction => "terminal_interaction",
        EventMsg::ExecCommandEnd => "exec_command_end",
        EventMsg::ViewImageToolCall => "view_image_tool_call",
        EventMsg::ExecApprovalRequest => "exec_approval_request",
        EventMsg::RequestPermissions => "request_permissions",
        EventMsg::RequestUserInput => "request_user_input",
        EventMsg::DynamicToolCallRequest => "dynamic_tool_call_request",
        EventMsg::DynamicToolCallResponse => "dynamic_tool_call_response",
        EventMsg::ElicitationRequest => "elicitation_request",
        EventMsg::ApplyPatchApprovalRequest => "apply_patch_approval_request",
        EventMsg::GuardianAssessment => "guardian_assessment",
        EventMsg::DeprecationNotice => "deprecation_notice",
        EventMsg::StreamError => "stream_error",
        EventMsg::PatchApplyBegin => "patch_apply_begin",
        EventMsg::PatchApplyUpdated => "patch_apply_updated",
        EventMsg::PatchApplyEnd => "patch_apply_end",
        EventMsg::TurnDiff => "turn_diff",
        EventMsg::RealtimeConversationListVoicesResponse => "realtime_conversation_list_voices_response",
        EventMsg::PlanUpdate => "plan_update",
        EventMsg::SpineTreeUpdate => "spine_tree_update",
        EventMsg::SpineSpawnProgress => "spine_spawn_progress",
        EventMsg::TurnAborted => "turn_aborted",
        EventMsg::ShutdownComplete => "shutdown_complete",
        EventMsg::EnteredReviewMode => "entered_review_mode",
        EventMsg::ExitedReviewMode => "exited_review_mode",
        EventMsg::RawResponseItem => "raw_response_item",
        EventMsg::RawResponseCompleted => "raw_response_completed",
        EventMsg::ItemStarted => "item_started",
        EventMsg::ItemCompleted => "item_completed",
        EventMsg::HookStarted => "hook_started",
        EventMsg::HookCompleted => "hook_completed",
        EventMsg::AgentMessageContentDelta => "agent_message_content_delta",
        EventMsg::PlanDelta => "plan_delta",
        EventMsg::ReasoningContentDelta => "reasoning_content_delta",
        EventMsg::ReasoningRawContentDelta => "reasoning_raw_content_delta",
        EventMsg::CollabAgentSpawnBegin => "collab_agent_spawn_begin",
        EventMsg::CollabAgentSpawnEnd => "collab_agent_spawn_end",
        EventMsg::CollabAgentInteractionBegin => "collab_agent_interaction_begin",
        EventMsg::CollabAgentInteractionEnd => "collab_agent_interaction_end",
        EventMsg::CollabWaitingBegin => "collab_waiting_begin",
        EventMsg::CollabWaitingEnd => "collab_waiting_end",
        EventMsg::CollabCloseBegin => "collab_close_begin",
        EventMsg::CollabCloseEnd => "collab_close_end",
        EventMsg::CollabResumeBegin => "collab_resume_begin",
        EventMsg::CollabResumeEnd => "collab_resume_end",
        EventMsg::SubAgentActivity => "sub_agent_activity",
        EventMsg::AuthRecoveryStarted => "auth_recovery_started",
        EventMsg::AuthRecoveryCompleted => "auth_recovery_completed",
        EventMsg::ThreadQueueChanged => "thread_queue_changed",
    }
}

/// The diagnostic copy of a token usage.
pub open spec fn token_usage_shape(usage: TokenUsage) -> DebugTokenUsage {
    DebugTokenUsage {
        input_tokens: usage.input_tokens,
        cached_input_tokens: usage.cached_input_tokens,
        output_tokens: usage.output_tokens,
        reasoning_output_tokens: usage.reasoning_output_tokens,
        total_tokens: usage.total_tokens,
    }
}

pub fn debug_token_usage(usage: TokenUsage) -> (r: DebugTokenUsage)
    ensures
        r == token_usage_shape(usage),
{
    DebugTokenUsage {
        input_tokens: usage.input_tokens,
        cached_input_tokens: usage.cached_input_tokens,
        output_tokens: usage.output_tokens,
        reasoning_output_tokens: usage.reasoning_output_tokens,
        total_tokens: usage.total_tokens,
    }
}

/// What is kept of an event: its wire name, the token accounting of a token
/// count and the turn count of a rollback.
pub open spec fn event_shape(event: EventMsg) -> EventModel {
    EventModel {
        kind: event_kind_text(event),
        token_usage: match event {
            EventMsg::TokenCount { info: Some(info) } => Some(
                DebugTokenUsageInfo {
                    total: token_usage_shape(info.total_token_usage),
                    last: token_usage_shape(info.last_token_usage),
                    model_context_window: info.model_context_window,
                },
            ),
            _ => None,
        },
        rolled_back_turns: match event {
            EventMsg::ThreadRolledBack { num_turns } => Some(num_turns),
            _ => None,
        },
    }
}

pub fn redact_event(event: EventMsg) -> (r: DebugEvent)
    ensures
        r@ == event_shape(event),
{
    let kind = event_kind(&event);
    let mut debug = DebugEvent { kind, token_usage: None, rolled_back_turns: None };
    match event {
        EventMsg::TokenCount { info } => {
            if let Some(info) = info {
                debug.token_usage = Some(
                    DebugTokenUsageInfo {
                        total: debug_token_usage(info.total_token_usage),
                        last: debug_token_usage(info.last_token_usage),
                        model_context_window: info.model_context_window,
                    },
                );
            }
        },
        EventMsg::ThreadRolledBack { num_turns } => {
            debug.rolled_back_turns = Some(num_turns);
        },
        _ => {},
    }
    debug
}

/// The kind of a tool, by its namespace and name. `code_mode` says whether the
/// host's code mode claims the name.
pub open spec fn tool_kind(
    namespace: Option<Seq<char>>,
    name: Seq<char>,
    code_mode: bool,
) -> DebugToolKind {
    if (namespace == Some("spine"@) && name == "open"@) || (namespace is None && name
        == "spine.open"@) {
        DebugToolKind::SpineOpen
    } else if (namespace == Some("spine"@) && name == "close"@) || (namespace is None && name
        == "spine.close"@) {
        DebugToolKind::SpineClose
    } else if (namespace == Some("spine"@) && name == "next"@) || (namespace is None && name
        == "spine.next"@) {
        DebugToolKind::SpineNext
    } else if (namespace == Some("spine"@) && name == "spawn"@) || (namespace is None && name
        == "spine.spawn"@) {
        DebugToolKind::SpineSpawn
    } else if code_mode {
        DebugToolKind::CodeMode
    } else if name == "shell_command"@ || name == "exec_command"@ || name == "write_stdin"@ {
        DebugToolKind::Shell
    } else if name == "apply_patch"@ {
        DebugToolKind::Patch
    } else if name == "web_search"@ || name == "web_search_preview"@ {
        DebugToolKind::Web
    } else if name == "view_image"@ || name == "image_generation"@ {
        DebugToolKind::Image
    } else if namespace is Some {
        DebugToolKind::Mcp
    } else {
        DebugToolKind::Other
    }
}

/// The view of an optional text.
pub open spec fn text_view(value: Option<String>) -> Option<Seq<char>> {
    match value {
        Some(text) => Some(text@),
        None => None,
    }
}

pub fn classify_tool(namespace: &Option<String>, name: &str, code_mode: bool) -> (r: DebugToolKind)
    ensures
        r == tool_kind(text_view(*namespace), name@, code_mode),
{
    let qualified = namespace.is_some();
    let spine = match namespace {
        Some(text) => same_text(text.as_str(), "spine"),
        None => false,
    };
    if (spine && same_text(name, "open")) || (!qualified && same_text(name, "spine.open")) {
        DebugToolKind::SpineOpen
    } else if (spine && same_text(name, "close")) || (!qualified && same_text(
        name,
        "spine.close",
    )) {
        DebugToolKind::SpineClose
    } else if (spine && same_text(name, "next")) || (!qualified && same_text(name, "spine.next")) {
        DebugToolKind::SpineNext
    } else if (spine && same_text(name, "spawn")) || (!qualified && same_text(
        name,
        "spine.spawn",
    )) {
        DebugToolKind::SpineSpawn
    } else if code_mode {
        DebugToolKind::CodeMode
    } else if same_text(name, "shell_command") || same_text(name, "exec_command") || same_text(
        name,
        "write_stdin",
    ) {
        DebugToolKind::Shell
    } else if same_text(name, "apply_patch") {
        DebugToolKind::Patch
    } else if same_text(name, "web_search") || same_text(name, "web_search_preview") {
        DebugToolKind::Web
    } else if same_text(name, "view_image") || same_text(name, "image_generation") {
        DebugToolKind::Image
    } else if qualified {
        DebugToolKind::Mcp
    } else {
        DebugToolKind::Other
    }
}

pub open spec fn message_role(role: Seq<char>) -> DebugMessageRole {
    if role == "user"@ {
        DebugMessageRole::User
    } else if role == "assistant"@ {
        DebugMessageRole::Assistant
    } else if role == "developer"@ {
        DebugMessageRole::Developer
    } else if role == "system"@ {
        DebugMessageRole::System
    } else {
        DebugMessageRole::Other
    }
}

pub fn debug_message_role(role: &str) -> (r: DebugMessageRole)
    ensures
        r == message_role(role@),
{
    if same_text(role, "user") {
        DebugMessageRole::User
    } else if same_text(role, "assistant") {
        DebugMessageRole::Assistant
    } else if same_text(role, "developer") {
        DebugMessageRole::Developer
    } else if same_text(role, "system") {
        DebugMessageRole::System
    } else {
        DebugMessageRole::Other
    }
}

pub open spec fn message_phase(phase: MessagePhase) -> DebugMessagePhase {
    match phase {
        MessagePhase::Commentary => DebugMessagePhase::Commentary,
        MessagePhase::FinalAnswer => DebugMessagePhase::FinalAnswer,
    }
}

pub open spec fn optional_phase(phase: Option<MessagePhase>) -> Option<DebugMessagePhase> {
    match phase {
        Some(phase) => Some(message_phase(phase)),
        None => None,
    }
}

pub fn debug_message_phase(phase: Option<MessagePhase>) -> (r: Option<DebugMessagePhase>)
    ensures
        r == optional_phase(phase),
{
    match phase {
        Some(MessagePhase::Commentary) => Some(DebugMessagePhase::Commentary),
        Some(MessagePhase::FinalAnswer) => Some(DebugMessagePhase::FinalAnswer),
        None => None,
    }
}

pub open spec fn content_kind(item: ContentKind) -> DebugContentKind {
    match item {
        ContentKind::InputText => DebugContentKind::InputText,
        ContentKind::InputImage => DebugContentKind::InputImage,
        ContentKind::InputAudio => DebugContentKind::InputAudio,
        ContentKind::OutputText => DebugContentKind::OutputText,
    }
}

pub open spec fn content_kinds(items: Seq<ContentKind>) -> Seq<DebugContentKind> {
    items.map_values(|item: ContentKind| content_kind(item))
}

pub fn debug_content_kinds(items: &Vec<ContentKind>) -> (r: Vec<DebugContentKind>)
    ensures
        r@ == content_kinds(items@),
{
    let mut out: Vec<DebugContentKind> = Vec::new();
    let mut i: usize = 0;
    while i < items.len()
        invariant
            i <= items@.len(),
            out@ == content_kinds(items@.take(i as int)),
        decreases items@.len() - i,
    {
        out.push(
            match items[i] {
                ContentKind::InputText => DebugContentKind::InputText,
                ContentKind::InputImage => DebugContentKind::InputImage,
                ContentKind::InputAudio => DebugContentKind::InputAudio,
                ContentKind::OutputText => DebugContentKind::OutputText,
            },
        );
        proof {
            assert(items@.take(i + 1) =~= items@.take(i as int).push(items@[i as int]));
        }
        i = i + 1;
    }
    assert(items@.take(i as int) =~= items@);
    out
}

pub open spec fn agent_content_kind(item: AgentContentKind) -> DebugAgentContentKind {
    match item {
        AgentContentKind::InputText => DebugAgentContentKind::InputText,
        AgentContentKind::EncryptedContent => DebugAgentContentKind::EncryptedContent,
    }
}

pub open spec fn agent_content_kinds(items: Seq<AgentContentKind>) -> Seq<DebugAgentContentKind> {
    items.map_values(|item: AgentContentKind| agent_content_kind(item))
}

pub fn debug_agent_content_kinds(items: &Vec<AgentContentKind>) -> (r: Vec<DebugAgentContentKind>)
    ensures
        r@ == agent_content_kinds(items@),
{
    let mut out: Vec<DebugAgentContentKind> = Vec::new();
    let mut i: usize = 0;
    while i < items.len()
        invariant
            i <= items@.len(),
            out@ == agent_content_kinds(items@.take(i as int)),
        decreases items@.len() - i,
    {
        out.push(
            match items[i] {
                AgentContentKind::InputText => DebugAgentContentKind::InputText,
                AgentContentKind::EncryptedContent => DebugAgentContentKind::EncryptedContent,
            },
        );
        proof {
            assert(items@.take(i + 1) =~= items@.take(i as int).push(items@[i as int]));
        }
        i = i + 1;
    }
    assert(items@.take(i as int) =~= items@);
    out
}

pub open spec fn reasoning_content_kind(item: ReasoningContentKind) -> DebugReasoningContentKind {
    match item {
        ReasoningContentKind::ReasoningText => DebugReasoningContentKind::ReasoningText,
        ReasoningContentKind::Text => DebugReasoningContentKind::Text,
    }
}

pub open spec fn reasoning_content_kinds(items: Seq<ReasoningContentKind>) -> Seq<
    DebugReasoningContentKind,
> {
    items.map_values(|item: ReasoningContentKind| reasoning_content_kind(item))
}

pub fn debug_reasoning_content_kinds(items: &Vec<ReasoningContentKind>) -> (r: Vec<
    DebugReasoningContentKind,
>)
    ensures
        r@ == reasoning_content_kinds(items@),
{
    let mut out: Vec<DebugReasoningContentKind> = Vec::new();
    let mut i: usize = 0;
    while i < items.len()
        invariant
            i <= items@.len(),
            out@ == reasoning_content_kinds(items@.take(i as int)),
        decreases items@.len() - i,
    {
        out.push(
            match items[i] {
                ReasoningContentKind::ReasoningText => DebugReasoningContentKind::ReasoningText,
                ReasoningContentKind::Text => DebugReasoningContentKind::Text,
            },
        );
        proof {
            assert(items@.take(i + 1) =~= items@.take(i as int).push(items@[i as int]));
        }
        i = i + 1;
    }
    assert(items@.take(i as int) =~= items@);
    out
}

pub open spec fn shell_status(status: LocalShellStatus) -> DebugShellStatus {
    match status {
        LocalShellStatus::Completed => DebugShellStatus::Completed,
        LocalShellStatus::InProgress => DebugShellStatus::InProgress,
        LocalShellStatus::Incomplete => DebugShellStatus::Incomplete,
    }
}

pub fn debug_shell_status(status: LocalShellStatus) -> (r: DebugShellStatus)
    ensures
        r == shell_status(status),
{
    match status {
        LocalShellStatus::Completed => DebugShellStatus::Completed,
        LocalShellStatus::InProgress => DebugShellStatus::InProgress,
        LocalShellStatus::Incomplete => DebugShellStatus::Incomplete,
    }
}

/// How many queries a search names, the single one included.
pub open spec fn query_count(query: bool, queries: Option<usize>) -> nat {
    (if query { 1nat } else { 0nat }) + (match queries {
        Some(count) => count as nat,
        None => 0nat,
    })
}

pub open spec fn web_action(action: WebSearchAction) -> DebugWebAction {
    match action {
        WebSearchAction::Search { query, queries } => DebugWebAction::Search {
            query_count: query_count(query, queries) as usize,
        },
        WebSearchAction::OpenPage => DebugWebAction::OpenPage,
        WebSearchAction::FindInPage => DebugWebAction::FindInPage,
        WebSearchAction::Other => DebugWebAction::Other,
    }
}

/// Whether the query count of a search can be represented. It always can where
/// the count is the length of a list that is in memory.
pub open spec fn countable_action(action: Option<WebSearchAction>) -> bool {
    action matches Some(WebSearchAction::Search { query, queries }) ==> query_count(query, queries)
        <= usize::MAX
}

pub open spec fn optional_web_action(action: Option<WebSearchAction>) -> Option<DebugWebAction> {
    match action {
        Some(action) => Some(web_action(action)),
        None => None,
    }
}

pub fn debug_web_action(action: Option<WebSearchAction>) -> (r: Option<DebugWebAction>)
    requires
        countable_action(action),
    ensures
        r == optional_web_action(action),
{
    match action {
        Some(WebSearchAction::Search { query, queries }) => {
            let single: usize = if query {
                1
            } else {
                0
            };
            let listed: usize = match queries {
                Some(count) => count,
                None => 0,
            };
            Some(DebugWebAction::Search { query_count: single + listed })
        },
        Some(WebSearchAction::OpenPage) => Some(DebugWebAction::OpenPage),
        Some(WebSearchAction::FindInPage) => Some(DebugWebAction::FindInPage),
        Some(WebSearchAction::Other) => Some(DebugWebAction::Other),
        None => None,
    }
}

pub open spec fn output_content_kind(item: OutputContent) -> DebugOutputContentKind {
    match item {
        OutputContent::InputText => DebugOutputContentKind::InputText,
        OutputContent::InputImage => DebugOutputContentKind::InputImage,
        OutputContent::InputAudio => DebugOutputContentKind::InputAudio,
        OutputContent::EncryptedContent => DebugOutputContentKind::EncryptedContent,
    }
}

/// What is kept of an output body: the size of a text, the kinds of a list.
pub open spec fn output_body(body: OutputBody) -> BodyModel {
    match body {
        OutputBody::Text(text) => BodyModel::Text { bytes: byte_len(text@) as usize },
        OutputBody::ContentItems(items) => BodyModel::ContentItems {
            items: items@.map_values(|item: OutputContent| output_content_kind(item)),
        },
    }
}

pub fn debug_output_body(body: &OutputBody) -> (r: DebugOutputBodyShape)
    ensures
        r@ == output_body(*body),
{
    match body {
        OutputBody::Text(text) => DebugOutputBodyShape::Text { bytes: byte_size(text.as_str()) },
        OutputBody::ContentItems(items) => {
            let mut out: Vec<DebugOutputContentKind> = Vec::new();
            let mut i: usize = 0;
            while i < items.len()
                invariant
                    i <= items@.len(),
                    out@ == items@.take(i as int).map_values(
                        |item: OutputContent| output_content_kind(item),
                    ),
                decreases items@.len() - i,
            {
                out.push(
                    match items[i] {
                        OutputContent::InputText => DebugOutputContentKind::InputText,
                        OutputContent::InputImage => DebugOutputContentKind::InputImage,
                        OutputContent::InputAudio => DebugOutputContentKind::InputAudio,
                        OutputContent::EncryptedContent => DebugOutputContentKind::EncryptedContent,
                    },
                );
                proof {
                    assert(items@.take(i + 1) =~= items@.take(i as int).push(items@[i as int]));
                }
                i = i + 1;
            }
            assert(items@.take(i as int) =~= items@);
            DebugOutputBodyShape::ContentItems { items: out }
        },
    }
}

pub open spec fn value_shape(value: Json) -> DebugJsonValueShape {
    match value {
        Json::Null => DebugJsonValueShape::Null,
        Json::Bool(_) => DebugJsonValueShape::Bool,
        Json::Unsigned(_) => DebugJsonValueShape::Number,
        Json::Negative(_) => DebugJsonValueShape::Number,
        Json::OtherNumber => DebugJsonValueShape::Number,
        Json::Text(_) => DebugJsonValueShape::Text,
        Json::Array(items) => DebugJsonValueShape::Array(items@.len() as usize),
        Json::Object(fields) => DebugJsonValueShape::Object(fields@.len() as usize),
    }
}

pub fn json_value_shape(value: &Json) -> (r: DebugJsonValueShape)
    ensures
        r == value_shape(*value),
{
    match value {
        Json::Null => DebugJsonValueShape::Null,
        Json::Bool(_) => DebugJsonValueShape::Bool,
        Json::Unsigned(_) => DebugJsonValueShape::Number,
        Json::Negative(_) => DebugJsonValueShape::Number,
        Json::OtherNumber => DebugJsonValueShape::Number,
        Json::Text(_) => DebugJsonValueShape::Text,
        Json::Array(items) => DebugJsonValueShape::Array(items.len()),
        Json::Object(fields) => DebugJsonValueShape::Object(fields.len()),
    }
}

/// The shape of an expected text.
pub open spec fn text_shape(value: Option<Json>) -> DebugStringShape {
    match value {
        None => DebugStringShape::Missing,
        Some(Json::Null) => DebugStringShape::Null,
        Some(Json::Text(text)) => if text@.len() == 0 {
            DebugStringShape::Empty
        } else if blank(text@) {
            DebugStringShape::Whitespace
        } else {
            DebugStringShape::NonEmpty
        },
        Some(_) => DebugStringShape::WrongType,
    }
}

pub fn string_shape(value: Option<&Json>) -> (r: DebugStringShape)
    ensures
        r == text_shape(deref_option(value)),
{
    match value {
        None => DebugStringShape::Missing,
        Some(Json::Null) => DebugStringShape::Null,
        Some(Json::Text(text)) => {
            if text.as_str().is_empty() {
                DebugStringShape::Empty
            } else if is_blank(text.as_str()) {
                DebugStringShape::Whitespace
            } else {
                DebugStringShape::NonEmpty
            }
        },
        Some(_) => DebugStringShape::WrongType,
    }
}

/// The shape of an expected unsigned number.
pub open spec fn number_shape(value: Option<Json>) -> DebugUnsignedShape {
    match value {
        None => DebugUnsignedShape::Missing,
        Some(Json::Null) => DebugUnsignedShape::Null,
        Some(Json::Unsigned(number)) => DebugUnsignedShape::Unsigned(number),
        Some(Json::Negative(number)) => if number < 0 {
            DebugUnsignedShape::Negative
        } else {
            DebugUnsignedShape::OtherNumber
        },
        Some(Json::OtherNumber) => DebugUnsignedShape::OtherNumber,
        Some(_) => DebugUnsignedShape::WrongType,
    }
}

pub fn unsigned_shape(value: Option<&Json>) -> (r: DebugUnsignedShape)
    ensures
        r == number_shape(deref_option(value)),
{
    match value {
        None => DebugUnsignedShape::Missing,
        Some(Json::Null) => DebugUnsignedShape::Null,
        Some(Json::Unsigned(number)) => DebugUnsignedShape::Unsigned(*number),
        Some(Json::Negative(number)) => {
            if *number < 0 {
                DebugUnsignedShape::Negative
            } else {
                DebugUnsignedShape::OtherNumber
            }
        },
        Some(Json::OtherNumber) => DebugUnsignedShape::OtherNumber,
        Some(_) => DebugUnsignedShape::WrongType,
    }
}

/// The shape of a schema field, against the one schema that is expected.
pub open spec fn schema_text_shape(value: Option<Json>, expected: Seq<char>) -> DebugSchemaShape {
    match value {
        None => DebugSchemaShape::Missing,
        Some(Json::Null) => DebugSchemaShape::Null,
        Some(Json::Text(text)) => if text@.len() == 0 {
            DebugSchemaShape::Empty
        } else if blank(text@) {
            DebugSchemaShape::Whitespace
        } else if text@ == expected {
            DebugSchemaShape::ExactV1
        } else {
            DebugSchemaShape::Other
        },
        Some(_) => DebugSchemaShape::WrongType,
    }
}

pub fn schema_shape(value: Option<&Json>, expected: &str) -> (r: DebugSchemaShape)
    ensures
        r == schema_text_shape(deref_option(value), expected@),
{
    match value {
        None => DebugSchemaShape::Missing,
        Some(Json::Null) => DebugSchemaShape::Null,
        Some(Json::Text(text)) => {
            if text.as_str().is_empty() {
                DebugSchemaShape::Empty
            } else if is_blank(text.as_str()) {
                DebugSchemaShape::Whitespace
            } else if same_text(text.as_str(), expected) {
                DebugSchemaShape::ExactV1
            } else {
                DebugSchemaShape::Other
            }
        },
        Some(_) => DebugSchemaShape::WrongType,
    }
}

/// The shape of a spawn outcome field.
pub open spec fn outcome_shape(value: Option<Json>) -> DebugSpawnOutcomeShape {
    match value {
        None => DebugSpawnOutcomeShape::Missing,
        Some(Json::Null) => DebugSpawnOutcomeShape::Null,
        Some(Json::Text(text)) => if text@.len() == 0 {
            DebugSpawnOutcomeShape::Empty
        } else if blank(text@) {
            DebugSpawnOutcomeShape::Whitespace
        } else if text@ == "completed"@ {
            DebugSpawnOutcomeShape::Completed
        } else if text@ == "errored"@ {
            DebugSpawnOutcomeShape::Errored
        } else if text@ == "aborted"@ {
            DebugSpawnOutcomeShape::Aborted
        } else {
            DebugSpawnOutcomeShape::Other
        },
        Some(_) => DebugSpawnOutcomeShape::WrongType,
    }
}

pub fn spawn_outcome_shape(value: Option<&Json>) -> (r: DebugSpawnOutcomeShape)
    ensures
        r == outcome_shape(deref_option(value)),
{
    match value {
        None => DebugSpawnOutcomeShape::Missing,
        Some(Json::Null) => DebugSpawnOutcomeShape::Null,
        Some(Json::Text(text)) => {
            if text.as_str().is_empty() {
                DebugSpawnOutcomeShape::Empty
            } else if is_blank(text.as_str()) {
                DebugSpawnOutcomeShape::Whitespace
            } else if same_text(text.as_str(), "completed") {
                DebugSpawnOutcomeShape::Completed
            } else if same_text(text.as_str(), "errored") {
                DebugSpawnOutcomeShape::Errored
            } else if same_text(text.as_str(), "aborted") {
                DebugSpawnOutcomeShape::Aborted
            } else {
                DebugSpawnOutcomeShape::Other
            }
        },
        Some(_) => DebugSpawnOutcomeShape::WrongType,
    }
}

pub open spec fn object_state(value: Option<Json>) -> DebugObjectState {
    match value {
        Some(Json::Object(_)) => DebugObjectState::Object,
        Some(_) => DebugObjectState::NonObject,
        None => DebugObjectState::MalformedJson,
    }
}

/// Whether a parsed text is an object, another value, or no value.
pub fn object_shape(value: Option<&Json>) -> (r: DebugObjectState)
    ensures
        r == object_state(deref_option(value)),
{
    match value {
        Some(Json::Object(_)) => DebugObjectState::Object,
        Some(_) => DebugObjectState::NonObject,
        None => DebugObjectState::MalformedJson,
    }
}

/// The shape of an expected list.
pub open spec fn collection_shape(value: Option<Json>) -> DebugCollectionShape {
    match value {
        None => DebugCollectionShape::Missing,
        Some(Json::Null) => DebugCollectionShape::Null,
        Some(Json::Array(_)) => DebugCollectionShape::Array,
        Some(_) => DebugCollectionShape::WrongType,
    }
}

/// The elements of a value, where it is a list.
pub open spec fn elements(value: Option<Json>) -> Seq<Json> {
    match value {
        Some(Json::Array(items)) => items@,
        _ => Seq::empty(),
    }
}

pub fn missing_collection<T>() -> (r: DebugCollection<T>)
    ensures
        r@ == (CollectionModel { shape: DebugCollectionShape::Missing, items: Seq::<T>::empty() }),
{
    DebugCollection { shape: DebugCollectionShape::Missing, items: Vec::new() }
}

/// What is kept of one task of a spawn request.
pub open spec fn task_shape(item: Json) -> DebugSpawnTaskShape {
    DebugSpawnTaskShape {
        object: object_state(Some(item)),
        summary: text_shape(field_of(Some(item), "summary"@)),
        prompt: text_shape(field_of(Some(item), "prompt"@)),
        unknown_fields: unknown_fields(Some(item), seq!["summary"@, "prompt"@]),
    }
}

/// What is kept of the task list of a spawn request.
pub open spec fn task_shapes(value: Option<Json>) -> CollectionModel<DebugSpawnTaskShape> {
    CollectionModel {
        shape: collection_shape(value),
        items: elements(value).map_values(|item: Json| task_shape(item)),
    }
}

pub fn inspect_spawn_tasks(value: Option<&Json>) -> (r: DebugCollection<DebugSpawnTaskShape>)
    ensures
        r@ == task_shapes(deref_option(value)),
{
    let ghost whole = deref_option(value);
    match value {
        None => {
            let out = missing_collection();
            assert(out@.items =~= task_shapes(whole).items);
            out
        },
        Some(Json::Array(items)) => {
            let mut out: Vec<DebugSpawnTaskShape> = Vec::new();
            let mut i: usize = 0;
            while i < items.len()
                invariant
                    i <= items@.len(),
                    out@ == items@.take(i as int).map_values(|item: Json| task_shape(item)),
                decreases items@.len() - i,
            {
                let item = &items[i];
                let allowed = ["summary", "prompt"];
                proof {
                    assert(name_views(allowed@) =~= seq!["summary"@, "prompt"@]);
                    assert(items@.take(i + 1) =~= items@.take(i as int).push(items@[i as int]));
                }
                out.push(
                    DebugSpawnTaskShape {
                        object: object_shape(Some(item)),
                        summary: string_shape(field(Some(item), "summary")),
                        prompt: string_shape(field(Some(item), "prompt")),
                        unknown_fields: has_unknown_fields(Some(item), &allowed),
                    },
                );
                i = i + 1;
            }
            assert(items@.take(i as int) =~= items@);
            DebugCollection { shape: DebugCollectionShape::Array, items: out }
        },
        Some(Json::Null) => {
            let out: DebugCollection<DebugSpawnTaskShape> = DebugCollection {
                shape: DebugCollectionShape::Null,
                items: Vec::new(),
            };
            assert(out@.items =~= task_shapes(whole).items);
            out
        },
        Some(_) => {
            let out: DebugCollection<DebugSpawnTaskShape> = DebugCollection {
                shape: DebugCollectionShape::WrongType,
                items: Vec::new(),
            };
            assert(out@.items =~= task_shapes(whole).items);
            out
        },
    }
}

} // verus!

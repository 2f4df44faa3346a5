//! The configuration that a session ran with, written down so that it can be
//! replayed: resolved values in place of the inputs that they came from.

use crate::config_lock::SpineConfigLock;
use crate::spawn::copy_text;
use crate::text_map::TextMap;
use vstd::prelude::*;

verus! {

use crate::shapes::text_view;

/// The settings of a feature.
#[derive(Debug, PartialEq, Eq)]
#[allow(inconsistent_fields)]
pub enum FeatureValue {
    /// Only whether it is on.
    Enabled(bool),
    /// Whether it is on, where that is said, and its settings written out.
    Settings { enabled: Option<bool>, settings: String },
}

/// A feature that the host knows.
#[derive(Debug, PartialEq, Eq)]
pub struct FeatureSpec {
    pub key: String,
    pub removed: bool,
    pub enabled: bool,
}

/// Limits of subagents, as they are written down.
#[derive(Debug, PartialEq, Eq)]
pub struct AgentsLock {
    pub enabled: Option<bool>,
    pub max_concurrent_threads_per_session: Option<usize>,
    pub max_depth: Option<i64>,
    pub default_subagent_model: Option<String>,
    pub default_subagent_reasoning_effort: Option<String>,
    pub interrupt_message: Option<bool>,
    /// Settings that are not resolved here, by the host's handle.
    pub rest: Option<u64>,
}

/// The settings of the orchestrator, as they are written down.
#[derive(Clone, Copy, Debug, PartialEq, Eq, Structural)]
pub struct OrchestratorLock {
    pub skills_enabled: Option<bool>,
    pub mcp_enabled: Option<bool>,
}

/// A configuration as it is written down. Values of the host's own types stand
/// here as they are written.
pub struct LockConfig {
    pub model: Option<String>,
    pub model_reasoning_effort: Option<String>,
    pub model_reasoning_summary: Option<String>,
    pub service_tier: Option<String>,
    pub instructions: Option<String>,
    pub developer_instructions: Option<String>,
    pub compact_prompt: Option<String>,
    pub personality: Option<String>,
    pub approval_policy: Option<String>,
    pub approvals_reviewer: Option<String>,
    pub web_search: Option<String>,
    pub model_provider: Option<String>,
    pub plan_mode_reasoning_effort: Option<String>,
    pub model_verbosity: Option<String>,
    pub include_permissions_instructions: Option<bool>,
    pub include_apps_instructions: Option<bool>,
    pub include_collaboration_mode_instructions: Option<bool>,
    pub include_environment_context: Option<bool>,
    pub background_terminal_max_timeout: Option<u64>,
    pub features: Option<TextMap<FeatureValue>>,
    pub spine_spawn_max_threads: Option<usize>,
    pub memories: Option<String>,
    pub agents: Option<AgentsLock>,
    pub include_skill_instructions: Option<bool>,
    pub orchestrator: Option<OrchestratorLock>,
    pub spine_config_snapshot: Option<SpineConfigLock>,
    pub profile: Option<String>,
    pub profiles: Vec<String>,
    pub debug: Option<u64>,
    pub spine_snapshot: Option<u64>,
    pub model_instructions_file: Option<String>,
    pub experimental_compact_prompt_file: Option<String>,
    pub model_catalog_json: Option<String>,
    pub sandbox_mode: Option<String>,
    pub sandbox_workspace_write: Option<u64>,
    pub default_permissions: Option<String>,
    pub permissions: Option<u64>,
    pub experimental_use_unified_exec_tool: Option<bool>,
    /// The external file that the task tree is configured by.
    pub spine_config_file: Option<String>,
    /// Everything else, by the host's handle.
    pub rest: Option<u64>,
}

/// The values that were chosen when the session was made.
pub struct SessionChoices {
    pub model: String,
    pub model_reasoning_effort: Option<String>,
    pub model_reasoning_summary: Option<String>,
    pub service_tier: Option<String>,
    pub base_instructions: String,
    pub developer_instructions: Option<String>,
    pub compact_prompt: Option<String>,
    pub personality: Option<String>,
    pub approval_policy: String,
    pub approvals_reviewer: String,
}

/// The resolved settings of the tool registry.
#[derive(Debug, PartialEq, Eq)]
pub struct ToolRegistrySettings {
    pub error_on_tool_collisions: bool,
    /// Both settings written out.
    pub written: String,
}

/// A resolved section, written out, or why it cannot be.
pub struct ResolvedSection {
    pub written: Result<String, String>,
    pub enabled: bool,
}

/// The values of a resolved configuration.
pub struct ResolvedConfig {
    pub web_search_mode: String,
    pub model_provider_id: String,
    pub plan_mode_reasoning_effort: Option<String>,
    pub model_verbosity: Option<String>,
    pub include_permissions_instructions: bool,
    pub include_apps_instructions: bool,
    pub include_collaboration_mode_instructions: bool,
    pub include_environment_context: bool,
    pub background_terminal_max_timeout: u64,
    pub features: Vec<FeatureSpec>,
    pub tool_registry: ToolRegistrySettings,
    pub multi_agent_v2: ResolvedSection,
    /// Only where it was set explicitly.
    pub token_budget: Option<ResolvedSection>,
    pub rollout_budget: Option<ResolvedSection>,
    pub current_time_reminder: Option<ResolvedSection>,
    pub spine_spawn_max_threads: usize,
    pub memories: Result<String, String>,
    pub agents_enabled: bool,
    pub agent_max_threads: Option<usize>,
    pub agent_max_depth: i64,
    pub agent_default_subagent_model: Option<String>,
    pub agent_default_subagent_reasoning_effort: Option<String>,
    pub agent_interrupt_message_enabled: bool,
    pub include_skill_instructions: bool,
    pub orchestrator_skills_enabled: bool,
    pub orchestrator_mcp_enabled: bool,
}

/// The model of a [`FeatureValue`].
#[allow(inconsistent_fields)]
pub ghost enum FeatureModel {
    Enabled(bool),
    Settings { enabled: Option<bool>, settings: Seq<char> },
}

impl View for FeatureValue {
    type V = FeatureModel;

    open spec fn view(&self) -> FeatureModel {
        match *self {
            FeatureValue::Enabled(on) => FeatureModel::Enabled(on),
            FeatureValue::Settings { enabled, settings } => FeatureModel::Settings {
                enabled,
                settings: settings@,
            },
        }
    }
}

/// The settings of all features.
pub type FeatureTable = Map<Seq<char>, FeatureModel>;

pub open spec fn table_view(table: TextMap<FeatureValue>) -> FeatureTable {
    table@.map_values(|v: FeatureValue| v@)
}

/// The table of a lock; an empty one where it has none.
pub open spec fn lock_features(features: Option<TextMap<FeatureValue>>) -> FeatureTable {
    match features {
        Some(table) => table_view(table),
        None => Map::empty(),
    }
}

/// The table with a feature's state: settings keep what they say and are marked,
/// anything else becomes the state.
pub open spec fn with_feature(table: FeatureTable, key: Seq<char>, enabled: bool) -> FeatureTable {
    if table.contains_key(key) && table[key] is Settings {
        table.insert(
            key,
            FeatureModel::Settings {
                enabled: Some(enabled),
                settings: table[key]->Settings_settings,
            },
        )
    } else {
        table.insert(key, FeatureModel::Enabled(enabled))
    }
}

/// The table with the state of each feature that is not removed.
pub open spec fn with_features(table: FeatureTable, specs: Seq<FeatureSpec>) -> FeatureTable
    decreases specs.len(),
{
    if specs.len() == 0 {
        table
    } else {
        let before = with_features(table, specs.drop_last());
        if specs.last().removed {
            before
        } else {
            with_feature(before, specs.last().key@, specs.last().enabled)
        }
    }
}

/// A section as the settings of a feature.
pub open spec fn section_model(written: Seq<char>, enabled: bool) -> FeatureModel {
    FeatureModel::Settings { enabled: Some(enabled), settings: written }
}

/// The table with a resolved section, where there is one.
pub open spec fn with_section(
    table: FeatureTable,
    key: Seq<char>,
    section: Option<ResolvedSection>,
) -> Result<FeatureTable, Seq<char>> {
    match section {
        None => Ok(table),
        Some(section) => match section.written {
            Err(error) => Err(error@),
            Ok(written) => Ok(table.insert(key, section_model(written@, section.enabled))),
        },
    }
}

/// The table with the tool registry: written down where it matters, or where it
/// was written before.
pub open spec fn with_registry(table: FeatureTable, registry: ToolRegistrySettings) -> FeatureTable {
    if registry.error_on_tool_collisions || table.contains_key("tool_registry"@) {
        table.insert(
            "tool_registry"@,
            FeatureModel::Settings { enabled: None, settings: registry.written@ },
        )
    } else {
        table
    }
}

/// The features of a resolved configuration.
pub open spec fn resolved_features(table: FeatureTable, config: ResolvedConfig) -> Result<
    FeatureTable,
    Seq<char>,
> {
    let states = with_features(table.remove("apps_mcp_path_override"@), config.features@);
    let registered = with_registry(states, config.tool_registry);
    match with_section(registered, "multi_agent_v2"@, Some(config.multi_agent_v2)) {
        Err(error) => Err(error),
        Ok(a) => match with_section(a, "token_budget"@, config.token_budget) {
            Err(error) => Err(error),
            Ok(b) => match with_section(b, "rollout_budget"@, config.rollout_budget) {
                Err(error) => Err(error),
                Ok(c) => with_section(c, "current_time_reminder"@, config.current_time_reminder),
            },
        },
    }
}

/// The features as far as they are written down before the first section that
/// cannot be written out; all of them where every section can.
pub open spec fn written_features(table: FeatureTable, config: ResolvedConfig) -> FeatureTable {
    let states = with_features(table.remove("apps_mcp_path_override"@), config.features@);
    let registered = with_registry(states, config.tool_registry);
    match with_section(registered, "multi_agent_v2"@, Some(config.multi_agent_v2)) {
        Err(_) => registered,
        Ok(a) => match with_section(a, "token_budget"@, config.token_budget) {
            Err(_) => a,
            Ok(b) => match with_section(b, "rollout_budget"@, config.rollout_budget) {
                Err(_) => b,
                Ok(c) => match with_section(
                    c,
                    "current_time_reminder"@,
                    config.current_time_reminder,
                ) {
                    Err(_) => c,
                    Ok(d) => d,
                },
            },
        },
    }
}

fn set_feature(table: &mut TextMap<FeatureValue>, key: &str, value: FeatureValue)
    requires
        old(table).wf(),
    ensures
        final(table).wf(),
        table_view(*final(table)) == table_view(*old(table)).insert(key@, value@),
{
    let ghost before = table_view(*table);
    table.insert(key.to_owned(), value);
    assert(table_view(*table) =~= before.insert(key@, value@));
}

fn save_features(table: &mut TextMap<FeatureValue>, specs: &Vec<FeatureSpec>)
    requires
        old(table).wf(),
    ensures
        final(table).wf(),
        table_view(*final(table)) == with_features(table_view(*old(table)), specs@),
{
    let ghost before = table_view(*table);
    let mut i: usize = 0;
    assert(specs@.take(0) =~= Seq::empty());
    while i < specs.len()
        invariant
            i <= specs@.len(),
            table.wf(),
            table_view(*table) == with_features(before, specs@.take(i as int)),
        decreases specs@.len() - i,
    {
        proof {
            let upto = specs@.take(i + 1);
            assert(upto.drop_last() =~= specs@.take(i as int));
            assert(upto.last() == specs@[i as int]);
        }
        if !specs[i].removed {
            let enabled = specs[i].enabled;
            let value = match table.get(specs[i].key.as_str()) {
                Some(FeatureValue::Settings { settings, .. }) => FeatureValue::Settings {
                    enabled: Some(enabled),
                    settings: settings.clone(),
                },
                _ => FeatureValue::Enabled(enabled),
            };
            set_feature(table, specs[i].key.as_str(), value);
        }
        i = i + 1;
    }
    assert(specs@.take(i as int) =~= specs@);
}

fn save_section(table: &mut TextMap<FeatureValue>, key: &str, section: &ResolvedSection) -> (r:
    Result<(), String>)
    requires
        old(table).wf(),
    ensures
        final(table).wf(),
        match with_section(table_view(*old(table)), key@, Some(*section)) {
            Ok(after) => r is Ok && table_view(*final(table)) == after,
            Err(error) => r matches Err(message) && message@ == error && table_view(*final(table))
                == table_view(*old(table)),
        },
{
    match &section.written {
        Err(error) => Err(error.clone()),
        Ok(written) => {
            set_feature(
                table,
                key,
                FeatureValue::Settings { enabled: Some(section.enabled), settings: written.clone() },
            );
            Ok(())
        },
    }
}

fn save_optional_section(
    table: &mut TextMap<FeatureValue>,
    key: &str,
    section: &Option<ResolvedSection>,
) -> (r: Result<(), String>)
    requires
        old(table).wf(),
    ensures
        final(table).wf(),
        match with_section(table_view(*old(table)), key@, *section) {
            Ok(after) => r is Ok && table_view(*final(table)) == after,
            Err(error) => r matches Err(message) && message@ == error && table_view(*final(table))
                == table_view(*old(table)),
        },
{
    match section {
        Some(section) => save_section(table, key, section),
        None => Ok(()),
    }
}

fn save_resolved_features(table: &mut TextMap<FeatureValue>, config: &ResolvedConfig) -> (r: Result<
    (),
    String,
>)
    requires
        old(table).wf(),
    ensures
        final(table).wf(),
        table_view(*final(table)) == written_features(table_view(*old(table)), *config),
        match resolved_features(table_view(*old(table)), *config) {
            Ok(after) => r is Ok && table_view(*final(table)) == after,
            Err(error) => r matches Err(message) && message@ == error,
        },
{
    let ghost before = table_view(*table);
    table.remove("apps_mcp_path_override");
    assert(table_view(*table) =~= before.remove("apps_mcp_path_override"@));
    save_features(table, &config.features);
    let registered = match table.get("tool_registry") {
        Some(_) => true,
        None => false,
    };
    assert(registered == table_view(*table).contains_key("tool_registry"@));
    if config.tool_registry.error_on_tool_collisions || registered {
        set_feature(
            table,
            "tool_registry",
            FeatureValue::Settings { enabled: None, settings: config.tool_registry.written.clone() },
        );
    }
    if let Err(error) = save_section(table, "multi_agent_v2", &config.multi_agent_v2) {
        return Err(error);
    }
    if let Err(error) = save_optional_section(table, "token_budget", &config.token_budget) {
        return Err(error);
    }
    if let Err(error) = save_optional_section(table, "rollout_budget", &config.rollout_budget) {
        return Err(error);
    }
    save_optional_section(table, "current_time_reminder", &config.current_time_reminder)
}

/// Whether the values of a lock that come before its features are those of a
/// resolved configuration.
pub open spec fn holds_leading_values(lock: LockConfig, config: ResolvedConfig) -> bool {
    &&& text_view(lock.web_search) == Some(config.web_search_mode@)
    &&& text_view(lock.model_provider) == Some(config.model_provider_id@)
    &&& text_view(lock.plan_mode_reasoning_effort) == text_view(config.plan_mode_reasoning_effort)
    &&& text_view(lock.model_verbosity) == text_view(config.model_verbosity)
    &&& lock.include_permissions_instructions == Some(config.include_permissions_instructions)
    &&& lock.include_apps_instructions == Some(config.include_apps_instructions)
    &&& lock.include_collaboration_mode_instructions == Some(
        config.include_collaboration_mode_instructions,
    )
    &&& lock.include_environment_context == Some(config.include_environment_context)
    &&& lock.background_terminal_max_timeout == Some(config.background_terminal_max_timeout)
}

/// Whether the plain values of a lock are those of a resolved configuration.
pub open spec fn holds_resolved_values(lock: LockConfig, config: ResolvedConfig) -> bool {
    &&& holds_leading_values(lock, config)
    &&& lock.spine_spawn_max_threads == Some(config.spine_spawn_max_threads)
    &&& lock.include_skill_instructions == Some(config.include_skill_instructions)
    &&& lock.orchestrator matches Some(orchestrator)
    &&& orchestrator.skills_enabled == Some(config.orchestrator_skills_enabled)
    &&& orchestrator.mcp_enabled == Some(config.orchestrator_mcp_enabled)
    &&& lock.agents matches Some(agents)
    &&& agents.enabled == Some(config.agents_enabled)
    &&& agents.max_concurrent_threads_per_session == config.agent_max_threads
    &&& agents.max_depth == Some(config.agent_max_depth)
    &&& text_view(agents.default_subagent_model) == text_view(config.agent_default_subagent_model)
    &&& text_view(agents.default_subagent_reasoning_effort) == text_view(
        config.agent_default_subagent_reasoning_effort,
    )
    &&& agents.interrupt_message == Some(config.agent_interrupt_message_enabled)
}

/// Whether two locks agree on the values that the session chose.
pub open spec fn same_session_values(a: LockConfig, b: LockConfig) -> bool {
    &&& a.model == b.model
    &&& a.model_reasoning_effort == b.model_reasoning_effort
    &&& a.model_reasoning_summary == b.model_reasoning_summary
    &&& a.service_tier == b.service_tier
    &&& a.instructions == b.instructions
    &&& a.developer_instructions == b.developer_instructions
    &&& a.compact_prompt == b.compact_prompt
    &&& a.personality == b.personality
    &&& a.approval_policy == b.approval_policy
    &&& a.approvals_reviewer == b.approvals_reviewer
}

/// Whether two locks agree on the values of the resolved configuration.
pub open spec fn same_resolved_values(a: LockConfig, b: LockConfig) -> bool {
    &&& a.web_search == b.web_search
    &&& a.model_provider == b.model_provider
    &&& a.plan_mode_reasoning_effort == b.plan_mode_reasoning_effort
    &&& a.model_verbosity == b.model_verbosity
    &&& a.include_permissions_instructions == b.include_permissions_instructions
    &&& a.include_apps_instructions == b.include_apps_instructions
    &&& a.include_collaboration_mode_instructions == b.include_collaboration_mode_instructions
    &&& a.include_environment_context == b.include_environment_context
    &&& a.background_terminal_max_timeout == b.background_terminal_max_timeout
    &&& a.features == b.features
    &&& a.spine_spawn_max_threads == b.spine_spawn_max_threads
    &&& a.memories == b.memories
    &&& a.agents == b.agents
    &&& a.include_skill_instructions == b.include_skill_instructions
    &&& a.orchestrator == b.orchestrator
}

/// Whether two locks agree on the values that come last in a resolved
/// configuration.
pub open spec fn same_last_values(a: LockConfig, b: LockConfig) -> bool {
    &&& a.memories == b.memories
    &&& a.agents == b.agents
    &&& a.include_skill_instructions == b.include_skill_instructions
    &&& a.orchestrator == b.orchestrator
}

/// Whether two locks agree on the inputs that resolved values came from.
pub open spec fn same_inputs(a: LockConfig, b: LockConfig) -> bool {
    &&& a.profile == b.profile
    &&& a.profiles == b.profiles
    &&& a.debug == b.debug
    &&& a.spine_snapshot == b.spine_snapshot
    &&& a.model_instructions_file == b.model_instructions_file
    &&& a.experimental_compact_prompt_file == b.experimental_compact_prompt_file
    &&& a.model_catalog_json == b.model_catalog_json
    &&& a.sandbox_mode == b.sandbox_mode
    &&& a.sandbox_workspace_write == b.sandbox_workspace_write
    &&& a.default_permissions == b.default_permissions
    &&& a.permissions == b.permissions
    &&& a.experimental_use_unified_exec_tool == b.experimental_use_unified_exec_tool
}

/// Whether two locks agree on what is neither resolved nor an input.
pub open spec fn same_rest(a: LockConfig, b: LockConfig) -> bool {
    &&& a.spine_config_file == b.spine_config_file
    &&& a.rest == b.rest
}

/// Writes down what the session chose.
pub fn save_session_resolved_fields(choices: &SessionChoices, lock: &mut LockConfig)
    ensures
        text_view(final(lock).model) == Some(choices.model@),
        final(lock).model_reasoning_effort == choices.model_reasoning_effort,
        final(lock).model_reasoning_summary == choices.model_reasoning_summary,
        final(lock).service_tier == choices.service_tier,
        text_view(final(lock).instructions) == Some(choices.base_instructions@),
        final(lock).developer_instructions == choices.developer_instructions,
        final(lock).compact_prompt == choices.compact_prompt,
        final(lock).personality == choices.personality,
        text_view(final(lock).approval_policy) == Some(choices.approval_policy@),
        text_view(final(lock).approvals_reviewer) == Some(choices.approvals_reviewer@),
        same_resolved_values(*final(lock), *old(lock)),
        same_inputs(*final(lock), *old(lock)),
        final(lock).spine_config_snapshot == old(lock).spine_config_snapshot,
        same_rest(*final(lock), *old(lock)),
{
    lock.model = Some(choices.model.clone());
    lock.model_reasoning_effort = copy_text(&choices.model_reasoning_effort);
    lock.model_reasoning_summary = copy_text(&choices.model_reasoning_summary);
    lock.service_tier = copy_text(&choices.service_tier);
    lock.instructions = Some(choices.base_instructions.clone());
    lock.developer_instructions = copy_text(&choices.developer_instructions);
    lock.compact_prompt = copy_text(&choices.compact_prompt);
    lock.personality = copy_text(&choices.personality);
    lock.approval_policy = Some(choices.approval_policy.clone());
    lock.approvals_reviewer = Some(choices.approvals_reviewer.clone());
}

/// Writes down the values of the resolved configuration. Where a section cannot
/// be written out, the lock is refused, and holds what was written down before.
pub fn save_config_resolved_fields(config: &ResolvedConfig, lock: &mut LockConfig) -> (r: Result<
    (),
    String,
>)
    requires
        old(lock).features matches Some(table) ==> table.wf(),
    ensures
        holds_leading_values(*final(lock), *config),
        final(lock).features matches Some(table) && table.wf() && table_view(table)
            == written_features(lock_features(old(lock).features), *config),
        same_session_values(*final(lock), *old(lock)),
        same_inputs(*final(lock), *old(lock)),
        final(lock).spine_config_snapshot == old(lock).spine_config_snapshot,
        same_rest(*final(lock), *old(lock)),
        match resolved_features(lock_features(old(lock).features), *config) {
            Err(error) => {
                &&& r matches Err(message)
                &&& message@ == error
                &&& final(lock).spine_spawn_max_threads == old(lock).spine_spawn_max_threads
                &&& same_last_values(*final(lock), *old(lock))
            },
            Ok(features) => match config.memories {
                Err(error) => {
                    &&& r matches Err(message)
                    &&& message@ == error@
                    &&& final(lock).spine_spawn_max_threads == Some(config.spine_spawn_max_threads)
                    &&& same_last_values(*final(lock), *old(lock))
                },
                Ok(memories) => {
                    &&& r is Ok
                    &&& holds_resolved_values(*final(lock), *config)
                    &&& final(lock).features matches Some(table) && table_view(table) == features
                    &&& text_view(final(lock).memories) == Some(memories@)
                    &&& final(lock).agents->Some_0.rest == match old(lock).agents {
                        Some(agents) => agents.rest,
                        None => None,
                    }
                },
            },
        },
{
    lock.web_search = Some(config.web_search_mode.clone());
    lock.model_provider = Some(config.model_provider_id.clone());
    lock.plan_mode_reasoning_effort = copy_text(&config.plan_mode_reasoning_effort);
    lock.model_verbosity = copy_text(&config.model_verbosity);
    lock.include_permissions_instructions = Some(config.include_permissions_instructions);
    lock.include_apps_instructions = Some(config.include_apps_instructions);
    lock.include_collaboration_mode_instructions = Some(
        config.include_collaboration_mode_instructions,
    );
    lock.include_environment_context = Some(config.include_environment_context);
    lock.background_terminal_max_timeout = Some(config.background_terminal_max_timeout);
    let mut kept = None;
    std::mem::swap(&mut kept, &mut lock.features);
    let mut table = match kept {
        Some(table) => table,
        None => TextMap::new(),
    };
    assert(table_view(table) =~= lock_features(old(lock).features));
    let saved = save_resolved_features(&mut table, config);
    lock.features = Some(table);
    if let Err(error) = saved {
        return Err(error);
    }
    lock.spine_spawn_max_threads = Some(config.spine_spawn_max_threads);
    match &config.memories {
        Ok(memories) => {
            lock.memories = Some(memories.clone());
        },
        Err(error) => {
            return Err(error.clone());
        },
    }
    let mut agents = None;
    std::mem::swap(&mut agents, &mut lock.agents);
    let rest = match &agents {
        Some(agents) => agents.rest,
        None => None,
    };
    lock.agents = Some(
        AgentsLock {
            enabled: Some(config.agents_enabled),
            max_concurrent_threads_per_session: config.agent_max_threads,
            max_depth: Some(config.agent_max_depth),
            default_subagent_model: copy_text(&config.agent_default_subagent_model),
            default_subagent_reasoning_effort: copy_text(
                &config.agent_default_subagent_reasoning_effort,
            ),
            interrupt_message: Some(config.agent_interrupt_message_enabled),
            rest,
        },
    );
    lock.include_skill_instructions = Some(config.include_skill_instructions);
    lock.orchestrator = Some(
        OrchestratorLock {
            skills_enabled: Some(config.orchestrator_skills_enabled),
            mcp_enabled: Some(config.orchestrator_mcp_enabled),
        },
    );
    Ok(())
}

/// Whether a lock holds none of the inputs that its values came from.
pub open spec fn has_no_inputs(lock: LockConfig) -> bool {
    &&& lock.profile is None
    &&& lock.profiles@.len() == 0
    &&& lock.debug is None
    &&& lock.spine_snapshot is None
    &&& lock.model_instructions_file is None
    &&& lock.experimental_compact_prompt_file is None
    &&& lock.model_catalog_json is None
    &&& lock.sandbox_mode is None
    &&& lock.sandbox_workspace_write is None
    &&& lock.default_permissions is None
    &&& lock.permissions is None
    &&& lock.experimental_use_unified_exec_tool is None
}

/// Takes the controls of locking itself out of a configuration.
pub fn clear_config_lock_debug_controls(lock: &mut LockConfig)
    ensures
        final(lock).debug is None,
        final(lock).spine_snapshot is None,
        same_session_values(*final(lock), *old(lock)),
        same_resolved_values(*final(lock), *old(lock)),
        final(lock).profile == old(lock).profile,
        final(lock).profiles == old(lock).profiles,
        final(lock).model_instructions_file == old(lock).model_instructions_file,
        final(lock).experimental_compact_prompt_file == old(lock).experimental_compact_prompt_file,
        final(lock).model_catalog_json == old(lock).model_catalog_json,
        final(lock).sandbox_mode == old(lock).sandbox_mode,
        final(lock).sandbox_workspace_write == old(lock).sandbox_workspace_write,
        final(lock).default_permissions == old(lock).default_permissions,
        final(lock).permissions == old(lock).permissions,
        final(lock).experimental_use_unified_exec_tool == old(
            lock,
        ).experimental_use_unified_exec_tool,
        final(lock).spine_config_snapshot == old(lock).spine_config_snapshot,
        same_rest(*final(lock), *old(lock)),
{
    lock.debug = None;
    lock.spine_snapshot = None;
}

/// Takes the inputs out that resolved values came from: a lock holds what can be
/// replayed.
pub fn drop_lockfile_inputs(lock: &mut LockConfig)
    ensures
        has_no_inputs(*final(lock)),
        same_session_values(*final(lock), *old(lock)),
        same_resolved_values(*final(lock), *old(lock)),
        final(lock).spine_config_snapshot == old(lock).spine_config_snapshot,
        same_rest(*final(lock), *old(lock)),
{
    lock.profile = None;
    lock.profiles = Vec::new();
    clear_config_lock_debug_controls(lock);
    lock.model_instructions_file = None;
    lock.experimental_compact_prompt_file = None;
    lock.model_catalog_json = None;
    lock.sandbox_mode = None;
    lock.sandbox_workspace_write = None;
    lock.default_permissions = None;
    lock.permissions = None;
    lock.experimental_use_unified_exec_tool = None;
}

/// The lock of a session's configuration: what the session chose where that is
/// wanted, the resolved values, and none of the inputs.
pub fn session_lock(
    choices: &SessionChoices,
    save_choices: bool,
    config: &ResolvedConfig,
    lock: LockConfig,
) -> (r: Result<LockConfig, String>)
    requires
        lock.features matches Some(table) ==> table.wf(),
    ensures
        match resolved_features(lock_features(lock.features), *config) {
            Err(error) => r matches Err(message) && message@ == error,
            Ok(features) => match config.memories {
                Err(error) => r matches Err(message) && message@ == error@,
                Ok(memories) => {
                    &&& r matches Ok(done)
                    &&& has_no_inputs(done)
                    &&& holds_resolved_values(done, *config)
                    &&& done.features matches Some(table) && table_view(table) == features
                    &&& text_view(done.memories) == Some(memories@)
                    &&& same_rest(done, lock)
                    &&& done.spine_config_snapshot == lock.spine_config_snapshot
                    &&& done.agents->Some_0.rest == match lock.agents {
                        Some(agents) => agents.rest,
                        None => None,
                    }
                    &&& !save_choices ==> same_session_values(done, lock)
                    &&& save_choices ==> text_view(done.model) == Some(choices.model@)
                        && text_view(done.instructions) == Some(choices.base_instructions@)
                        && done.developer_instructions == choices.developer_instructions
                        && done.compact_prompt == choices.compact_prompt && done.personality
                        == choices.personality && done.service_tier == choices.service_tier
                        && done.model_reasoning_effort == choices.model_reasoning_effort
                        && done.model_reasoning_summary == choices.model_reasoning_summary
                        && text_view(done.approval_policy) == Some(choices.approval_policy@)
                        && text_view(done.approvals_reviewer) == Some(choices.approvals_reviewer@)
                },
            },
        },
{
    let mut lock = lock;
    if save_choices {
        save_session_resolved_fields(choices, &mut lock);
    }
    if let Err(error) = save_config_resolved_fields(config, &mut lock) {
        return Err(error);
    }
    drop_lockfile_inputs(&mut lock);
    Ok(lock)
}

/// Refuses a section that is not the same after it was written out and read
/// back.
pub fn round_trip_outcome(label: &str, same: bool) -> (r: Result<(), String>)
    ensures
        match r {
            Ok(()) => same,
            Err(message) => !same && message@ == "resolved "@ + label@
                + " cannot be fully represented as TOML"@,
        },
{
    if same {
        return Ok(());
    }
    let mut message = String::from_str("resolved ");
    message.append(label);
    message.append(" cannot be fully represented as TOML");
    Err(message)
}

/// The name of the file that a conversation's lock is exported to.
pub fn lock_file_name(conversation_id: &str) -> (r: String)
    ensures
        r@ == conversation_id@ + ".config.lock.toml"@,
{
    let mut name = String::from_str(conversation_id);
    name.append(".config.lock.toml");
    name
}

} // verus!

//! What a session's lock says of its features.

use vstd::prelude::*;

verus! {

use crate::session_snapshot::{
    has_no_inputs, holds_leading_values, holds_resolved_values, lock_features, resolved_features,
    same_last_values, table_view, written_features, FeatureValue, LockConfig, with_feature, with_features, with_registry, with_section, FeatureModel,
    FeatureSpec, FeatureTable, ResolvedConfig, ResolvedSection, ToolRegistrySettings,
};

use crate::shapes::text_view;
use crate::text_map::TextMap;

/// Whether a setting says that a feature is on or off.
pub open spec fn says(value: FeatureModel, enabled: bool) -> bool {
    match value {
        FeatureModel::Enabled(on) => on == enabled,
        FeatureModel::Settings { enabled: on, .. } => on == Some(enabled),
    }
}

/// A feature's state is written down under its key; settings that were there
/// keep what they say, and no other feature changes.
pub proof fn a_feature_is_written_down(
    table: FeatureTable,
    key: Seq<char>,
    enabled: bool,
    other: Seq<char>,
)
    ensures
        ({
            let t = with_feature(table, key, enabled);
            &&& t.contains_key(key) && says(t[key], enabled)
            &&& table.contains_key(key) && table[key] is Settings ==> t[key] is Settings
                && t[key]->settings == table[key]->settings
            &&& !(table.contains_key(key) && table[key] is Settings) ==> t[key]
                == FeatureModel::Enabled(enabled)
            &&& other != key ==> (t.contains_key(other) <==> table.contains_key(other))
            &&& other != key && table.contains_key(other) ==> t[other] == table[other]
        }),
{
}

/// Every feature that is not removed is written down with its state, the last
/// one where two have one key; what no such feature names stays as it was.
pub proof fn features_are_written_down(
    table: FeatureTable,
    specs: Seq<FeatureSpec>,
    i: int,
    key: Seq<char>,
)
    ensures
        0 <= i < specs.len() && !specs[i].removed && (forall|j: int|
            i < j < specs.len() ==> (#[trigger] specs[j]).removed || specs[j].key@ != specs[i].key@)
            ==> with_features(table, specs).contains_key(specs[i].key@) && says(
            with_features(table, specs)[specs[i].key@],
            specs[i].enabled,
        ),
        (forall|j: int| 0 <= j < specs.len() ==> (#[trigger] specs[j]).removed || specs[j].key@ != key)
            ==> (with_features(table, specs).contains_key(key) <==> table.contains_key(key)) && (
        table.contains_key(key) ==> with_features(table, specs)[key] == table[key]),
    decreases specs.len(),
{
    if specs.len() > 0 {
        let rest = specs.drop_last();
        assert forall|j: int| 0 <= j < rest.len() implies rest[j] == #[trigger] specs[j] by {}
        features_are_written_down(table, rest, i, key);
        let last = specs[specs.len() - 1];
        a_feature_is_written_down(with_features(table, rest), last.key@, last.enabled, key);
        if 0 <= i < rest.len() {
            a_feature_is_written_down(
                with_features(table, rest),
                last.key@,
                last.enabled,
                specs[i].key@,
            );
        }
    }
}

/// A section is written down whole, with whether it is on; without one nothing
/// changes, and one that cannot be written out is refused for its reason.
pub proof fn a_section_is_written_down(
    table: FeatureTable,
    key: Seq<char>,
    section: Option<ResolvedSection>,
    other: Seq<char>,
)
    ensures
        section is None ==> with_section(table, key, section) == Ok::<FeatureTable, Seq<char>>(
            table,
        ),
        section matches Some(section) ==> match section.written {
            Err(error) => with_section(table, key, Some(section)) == Err::<
                FeatureTable,
                Seq<char>,
            >(error@),
            Ok(written) => with_section(table, key, Some(section)) matches Ok(t) && t.contains_key(
                key,
            ) && t[key] == (FeatureModel::Settings {
                enabled: Some(section.enabled),
                settings: written@,
            }) && (other != key ==> (t.contains_key(other) <==> table.contains_key(other)) && (
            table.contains_key(other) ==> t[other] == table[other])),
        },
{
}

/// The tool registry is written down where collisions are errors, or where it
/// was written before.
pub proof fn the_registry_is_written_down(
    table: FeatureTable,
    registry: ToolRegistrySettings,
    other: Seq<char>,
)
    ensures
        ({
            let t = with_registry(table, registry);
            &&& registry.error_on_tool_collisions || table.contains_key("tool_registry"@)
                <==> t.contains_key("tool_registry"@)
            &&& t.contains_key("tool_registry"@) ==> t["tool_registry"@] == (FeatureModel::Settings {
                enabled: None,
                settings: registry.written@,
            })
            &&& other != "tool_registry"@ ==> (t.contains_key(other) <==> table.contains_key(other))
                && (table.contains_key(other) ==> t[other] == table[other])
        }),
{
}

/// The keys under which a resolved configuration writes more than states.
pub open spec fn is_section_key(key: Seq<char>) -> bool {
    key == "tool_registry"@ || key == "multi_agent_v2"@ || key == "token_budget"@ || key
        == "rollout_budget"@ || key == "current_time_reminder"@
}

proof fn lemma_section_keys_differ()
    ensures
        "multi_agent_v2"@ != "token_budget"@,
        "multi_agent_v2"@ != "rollout_budget"@,
        "multi_agent_v2"@ != "current_time_reminder"@,
        "token_budget"@ != "rollout_budget"@,
        "token_budget"@ != "current_time_reminder"@,
        "rollout_budget"@ != "current_time_reminder"@,
        !is_section_key("apps_mcp_path_override"@),
{
    reveal_strlit("multi_agent_v2");
    reveal_strlit("token_budget");
    reveal_strlit("rollout_budget");
    reveal_strlit("current_time_reminder");
    reveal_strlit("tool_registry");
    reveal_strlit("apps_mcp_path_override");
    assert("multi_agent_v2"@[0] == 'm' && "token_budget"@[0] == 't' && "rollout_budget"@[0] == 'r');
    assert("current_time_reminder"@[0] == 'c' && "tool_registry"@[0] == 't');
    assert("apps_mcp_path_override"@[0] == 'a');
}

/// What the resolved features say: each section is written out under its own
/// key, every other feature has its state, and the override of a path is taken
/// out.
pub proof fn resolved_features_say_all(
    table: FeatureTable,
    config: ResolvedConfig,
    i: int,
    key: Seq<char>,
)
    requires
        resolved_features(table, config) is Ok,
    ensures
        ({
            let t = resolved_features(table, config)->Ok_0;
            let specs = config.features@;
            &&& config.multi_agent_v2.written matches Ok(written) && t.contains_key(
                "multi_agent_v2"@,
            ) && t["multi_agent_v2"@] == (FeatureModel::Settings {
                enabled: Some(config.multi_agent_v2.enabled),
                settings: written@,
            })
            &&& config.token_budget matches Some(section) ==> (section.written matches Ok(written)
                && t.contains_key("token_budget"@) && t["token_budget"@] == (
            FeatureModel::Settings { enabled: Some(section.enabled), settings: written@ }))
            &&& config.rollout_budget matches Some(section) ==> (section.written matches Ok(written)
                && t.contains_key("rollout_budget"@) && t["rollout_budget"@] == (
            FeatureModel::Settings { enabled: Some(section.enabled), settings: written@ }))
            &&& config.current_time_reminder matches Some(section) ==> (section.written matches Ok(
                written,
            ) && t.contains_key("current_time_reminder"@) && t["current_time_reminder"@] == (
            FeatureModel::Settings { enabled: Some(section.enabled), settings: written@ }))
            &&& 0 <= i < specs.len() && !specs[i].removed && !is_section_key(specs[i].key@) && (
            forall|j: int|
                i < j < specs.len() ==> (#[trigger] specs[j]).removed || specs[j].key@
                    != specs[i].key@) ==> t.contains_key(specs[i].key@) && says(
                t[specs[i].key@],
                specs[i].enabled,
            )
            &&& !is_section_key(key) && (forall|j: int|
                0 <= j < specs.len() ==> (#[trigger] specs[j]).removed || specs[j].key@ != key)
                ==> (t.contains_key(key) <==> table.contains_key(key) && key
                != "apps_mcp_path_override"@) && (table.contains_key(key) && key
                != "apps_mcp_path_override"@ ==> t[key] == table[key])
        }),
{
    lemma_section_keys_differ();
    let specs = config.features@;
    let cleared = table.remove("apps_mcp_path_override"@);
    features_are_written_down(cleared, specs, i, key);
}

/// A lock that holds the resolved values has each of them, as it was resolved.
pub proof fn a_lock_holds_what_was_resolved(lock: LockConfig, config: ResolvedConfig)
    requires
        holds_resolved_values(lock, config),
    ensures
        lock.web_search matches Some(mode) && mode@ == config.web_search_mode@,
        lock.model_provider matches Some(id) && id@ == config.model_provider_id@,
        text_view(lock.plan_mode_reasoning_effort) == text_view(config.plan_mode_reasoning_effort),
        text_view(lock.model_verbosity) == text_view(config.model_verbosity),
        lock.include_permissions_instructions == Some(config.include_permissions_instructions),
        lock.include_apps_instructions == Some(config.include_apps_instructions),
        lock.include_collaboration_mode_instructions == Some(
            config.include_collaboration_mode_instructions,
        ),
        lock.include_environment_context == Some(config.include_environment_context),
        lock.background_terminal_max_timeout == Some(config.background_terminal_max_timeout),
        lock.spine_spawn_max_threads == Some(config.spine_spawn_max_threads),
        lock.include_skill_instructions == Some(config.include_skill_instructions),
        lock.orchestrator matches Some(orchestrator) && orchestrator.skills_enabled == Some(
            config.orchestrator_skills_enabled,
        ) && orchestrator.mcp_enabled == Some(config.orchestrator_mcp_enabled),
        lock.agents matches Some(agents) && agents.enabled == Some(config.agents_enabled)
            && agents.max_concurrent_threads_per_session == config.agent_max_threads
            && agents.max_depth == Some(config.agent_max_depth) && text_view(
            agents.default_subagent_model,
        ) == text_view(config.agent_default_subagent_model) && text_view(
            agents.default_subagent_reasoning_effort,
        ) == text_view(config.agent_default_subagent_reasoning_effort) && agents.interrupt_message
            == Some(config.agent_interrupt_message_enabled),
{
}

/// The values that come first are written down even where the rest is refused.
pub proof fn the_leading_values_are_written_first(lock: LockConfig, config: ResolvedConfig)
    requires
        holds_leading_values(lock, config),
    ensures
        lock.web_search matches Some(mode) && mode@ == config.web_search_mode@,
        lock.model_provider matches Some(id) && id@ == config.model_provider_id@,
        text_view(lock.plan_mode_reasoning_effort) == text_view(config.plan_mode_reasoning_effort),
        text_view(lock.model_verbosity) == text_view(config.model_verbosity),
        lock.include_permissions_instructions == Some(config.include_permissions_instructions),
        lock.include_apps_instructions == Some(config.include_apps_instructions),
        lock.include_collaboration_mode_instructions == Some(
            config.include_collaboration_mode_instructions,
        ),
        lock.include_environment_context == Some(config.include_environment_context),
        lock.background_terminal_max_timeout == Some(config.background_terminal_max_timeout),
{
}

/// A lock without inputs names no profile, no file and no sandbox: nothing that
/// a resolved value came from.
pub proof fn a_lock_keeps_no_inputs(lock: LockConfig)
    requires
        has_no_inputs(lock),
    ensures
        lock.profile is None && lock.profiles@.len() == 0,
        lock.debug is None && lock.spine_snapshot is None,
        lock.model_instructions_file is None && lock.experimental_compact_prompt_file is None,
        lock.model_catalog_json is None,
        lock.sandbox_mode is None && lock.sandbox_workspace_write is None,
        lock.default_permissions is None && lock.permissions is None,
        lock.experimental_use_unified_exec_tool is None,
{
}

/// Locks that agree on the last values agree on the memories, the agents, the
/// skills and the orchestrator.
pub proof fn the_last_values_are_four(a: LockConfig, b: LockConfig)
    ensures
        same_last_values(a, b) <==> a.memories == b.memories && a.agents == b.agents
            && a.include_skill_instructions == b.include_skill_instructions && a.orchestrator
            == b.orchestrator,
{
}

/// A lock without features counts as one with an empty table.
pub proof fn no_features_are_an_empty_table(table: TextMap<FeatureValue>)
    ensures
        lock_features(None) == Map::<Seq<char>, FeatureModel>::empty(),
        lock_features(Some(table)) == table_view(table),
{
}

/// What is written down of the features is all of them where every section can
/// be written out. Where one cannot, the features without a section and the
/// sections before it are written down nevertheless, and it is not.
pub proof fn features_are_written_until_one_fails(table: FeatureTable, config: ResolvedConfig)
    ensures
        ({
            let states = with_features(table.remove("apps_mcp_path_override"@), config.features@);
            let plain = with_registry(states, config.tool_registry);
            let t = written_features(table, config);
            &&& resolved_features(table, config) matches Ok(all) ==> t == all
            &&& config.multi_agent_v2.written is Err ==> t == plain
            &&& config.multi_agent_v2.written is Ok ==> t.contains_key("multi_agent_v2"@)
            &&& forall|key: Seq<char>| #[trigger]
                t.contains_key(key) && !is_section_key(key) ==> plain.contains_key(key) && t[key]
                    == plain[key]
            &&& forall|key: Seq<char>| #[trigger]
                plain.contains_key(key) ==> t.contains_key(key)
            &&& config.multi_agent_v2.written is Ok && (config.token_budget matches Some(section)
                && section.written is Err) ==> (t.contains_key("token_budget"@)
                <==> plain.contains_key("token_budget"@))
        }),
{
    lemma_section_keys_differ();
}

} // verus!

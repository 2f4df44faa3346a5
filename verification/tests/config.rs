use spine_host::agent_shutdown::{
    agent_shutdown_outcome, close_edge_write, close_result, descendant_result, AgentError,
    EdgeWrite, ShutdownNext, SubtreeShutdown,
};
use spine_host::config_lock::{
    config_lockfile, effective_config, enabled_features, loader, lock_layer_from_config,
    lock_snapshot, pin_sources, ConfigLockfile, LockReader, LockStep, ResolveFrom, SourceFile,
    SourceText, SourceVerdict, SpineConfigLock, SpineConfigSourceLock, SpineConfiguration,
    SpineFeature, CONFIG_LOCK_VERSION,
};
use spine_host::initial_context::{
    asks_notes_bridge, assemble_initial_context, context_window_hint, shows_token_budget,
    ContextMessage, ContextParts, FragmentMarkers, PromptSlot, ThreadFragment, WorldFragment,
};
use spine_host::session_snapshot::{
    clear_config_lock_debug_controls, drop_lockfile_inputs, lock_file_name, round_trip_outcome,
    save_config_resolved_fields, session_lock, FeatureSpec, FeatureValue, LockConfig,
    ResolvedConfig, ResolvedSection, SessionChoices, ToolRegistrySettings,
};
use spine_host::text_map::TextMap;

fn snapshot(sources: Vec<SpineConfigSourceLock>, effective: Option<&str>) -> SpineConfigLock {
    SpineConfigLock {
        schema_version: 1,
        bundled_digest: String::from("bundled"),
        sources,
        effective_config: effective.map(String::from),
    }
}

fn recorded(path: &str, digest: Option<&str>) -> SpineConfigSourceLock {
    SpineConfigSourceLock {
        path: String::from(path),
        required: false,
        digest: digest.map(String::from),
    }
}

fn lock(version: u32, spine_config: Option<SpineConfigLock>) -> ConfigLockfile {
    ConfigLockfile {
        version,
        codex_version: String::from("0.9"),
        spine_config,
        config: empty_lock(),
    }
}

/// The lock that a reader hands out must hold its snapshot twice.
fn accepted(reader: LockReader) -> SpineConfigLock {
    let lock = match reader.checked(Ok(())) {
        Ok(lock) => lock,
        Err(error) => panic!("{error}"),
    };
    assert_eq!(lock.version, CONFIG_LOCK_VERSION);
    assert_eq!(lock.codex_version, "0.9");
    assert_eq!(lock.config.spine_config_snapshot, lock.spine_config);
    assert_eq!(lock.config.profile.as_deref(), Some("work"));
    assert_eq!(lock.config.debug, Some(1));
    lock.spine_config.expect("a snapshot")
}

#[test]
fn legacy_snapshots_convert_to_self_contained_version_three() {
    for version in [1, 2] {
        let legacy = if version == 1 { None } else { Some(snapshot(vec![], None)) };
        let (mut reader, step) =
            LockReader::begin("legacy.toml", lock(version, legacy), "bundled").expect("begin");
        assert!(matches!(step, LockStep::WriteLayers));
        let step = reader.layers_written(Ok(String::from("merged"))).expect("layers");
        let LockStep::Check(text) = step else {
            panic!("expected a check");
        };
        assert_eq!(text, "merged");
        assert_eq!(reader.version, CONFIG_LOCK_VERSION);
        assert_eq!(accepted(reader), snapshot(vec![], Some("merged")));
    }
}

#[test]
fn snapshot_survives_source_mutation_deletion_and_appearance() {
    let sources = || vec![recorded("home/.spine/spine.toml", Some("v1")), recorded("spine.toml", None)];
    let (reader, step) = LockReader::begin(
        "config-lock.toml",
        lock(3, Some(snapshot(sources(), Some("effective")))),
        "bundled",
    )
    .expect("a self-contained lock needs no source");
    assert!(matches!(step, LockStep::Check(text) if text == "effective"));
    assert_eq!(accepted(reader), snapshot(sources(), Some("effective")));
}

#[test]
fn older_locks_need_the_sources_that_they_recorded() {
    let begin = || {
        LockReader::begin(
            "lock.toml",
            lock(2, Some(snapshot(vec![recorded("a.toml", Some("d-1"))], None))),
            "bundled",
        )
        .expect("begin")
    };
    let text = |digest: &str, text: &str| {
        Ok(SourceText { digest: String::from(digest), text: String::from(text) })
    };
    let (mut reader, step) = begin();
    assert!(matches!(step, LockStep::ReadSource(path) if path == "a.toml"));
    assert!(matches!(
        reader.source_read(text("d-1", "[prompt]\nnode = \"home\"\n")),
        Ok(LockStep::WriteLayers)
    ));

    let refusal = |contents| match begin().0.source_read(contents) {
        Err(message) => message,
        Ok(_) => panic!("expected a refusal"),
    };
    assert_eq!(
        refusal(text("d-2", "")),
        "snapshot source a.toml no longer matches recorded digest d-1"
    );
    let broken = "[prompt\nnode = 1\n";
    let error = toml::from_str::<toml::Value>(broken).expect_err("no TOML");
    assert_eq!(
        refusal(text("d-1", broken)),
        format!("invalid snapshot source a.toml: {error}")
    );
    assert_eq!(
        refusal(Err(String::from("not found"))),
        "cannot reconstruct snapshot source a.toml: not found"
    );
    let verdict = SourceVerdict {
        digest: String::from("d-1"),
        invalid: Some(String::from("bad table")),
    };
    assert!(matches!(
        begin().0.source_judged(Ok(verdict)),
        Err(message) if message == "invalid snapshot source a.toml: bad table"
    ));
}

#[test]
fn locks_of_other_versions_or_bundles_are_refused() {
    let refusal = |lock| match LockReader::begin("lock.toml", lock, "bundled") {
        Err(message) => message,
        Ok(_) => panic!("expected a refusal"),
    };
    assert_eq!(
        refusal(lock(4, None)),
        "unsupported Spine snapshot version 4 in lock.toml"
    );
    assert_eq!(
        refusal(lock(2, None)),
        "snapshot lock.toml has invalid version 2 source metadata"
    );
    let foreign = SpineConfigLock {
        bundled_digest: String::from("other"),
        ..snapshot(vec![], None)
    };
    assert_eq!(
        refusal(lock(2, Some(foreign))),
        "snapshot lock.toml references unavailable bundled Spine config other"
    );
    assert!(effective_config(&snapshot(vec![], None)).is_err());
    assert_eq!(
        effective_config(&snapshot(vec![], Some("text"))),
        Ok(String::from("text"))
    );
}

#[test]
fn an_invalid_snapshot_gives_no_lock() {
    let (reader, _) = LockReader::begin(
        "lock.toml",
        lock(3, Some(snapshot(vec![], Some("effective")))),
        "bundled",
    )
    .expect("begin");
    assert_eq!(
        reader.checked(Err(String::from("bad table"))).err(),
        Some(String::from("bad table"))
    );
}

#[test]
fn a_lock_with_a_config_file_of_its_own_is_refused() {
    let mut own = lock(1, None);
    own.config.spine_config_file = Some(String::from("spine.toml"));
    assert_eq!(
        LockReader::begin("lock.toml", own, "bundled").err(),
        Some(String::from(
            "snapshot lock.toml does not contain the external Spine config required to reconstruct version 1"
        ))
    );
}

#[test]
fn a_lock_file_holds_its_snapshot_twice() {
    let lock = config_lockfile(empty_lock(), snapshot(vec![], Some("text")), "1.2.3");
    assert_eq!(lock.version, CONFIG_LOCK_VERSION);
    assert_eq!(lock.codex_version, "1.2.3");
    assert_eq!(lock.spine_config, Some(snapshot(vec![], Some("text"))));
    assert_eq!(lock.config.spine_config_snapshot, Some(snapshot(vec![], Some("text"))));
    assert_eq!(lock.config.profile.as_deref(), Some("work"));

    let layer = lock_layer_from_config("/locks/session.toml", lock);
    assert_eq!(layer.file, "/locks/session.toml");
    assert_eq!(layer.profile, None);
    assert_eq!(layer.config.debug, None);
    assert_eq!(layer.config.spine_snapshot, None);
    assert_eq!(layer.config.spine_config_snapshot, Some(snapshot(vec![], Some("text"))));
    assert_eq!(layer.config.profile.as_deref(), Some("work"));
}

#[test]
fn managed_host_features_select_sdk_features() {
    assert_eq!(
        enabled_features(true, true),
        vec![SpineFeature::Jit, SpineFeature::Spawn]
    );
    assert_eq!(enabled_features(false, true), vec![SpineFeature::Spawn]);
    assert_eq!(enabled_features(false, false), vec![]);
}

#[test]
fn a_configuration_is_resolved_from_what_is_saved_first() {
    let pending: SpineConfiguration<u8, u8> =
        SpineConfiguration::pending(None, None, "/work", Some("/home"), true);
    assert!(matches!(
        pending.resolve_from(Some("saved")),
        ResolveFrom::Saved("saved")
    ));
    let files = loader(None, "/work", Some("/home"), true);
    assert_eq!(pending.resolve_from(None), ResolveFrom::Sources(&files));
    let lock = snapshot(vec![], Some("text"));
    let pinned: SpineConfiguration<u8, u8> = SpineConfiguration::pending(
        None,
        Some(snapshot(vec![], Some("text"))),
        "/work",
        None,
        true,
    );
    assert_eq!(pinned.resolve_from(None), ResolveFrom::Snapshot(&lock));
    let resolved = SpineConfiguration::resolved(snapshot(vec![], Some("text")), 1u8, 2u8);
    assert_eq!(*resolved.sdk(), 1);
    assert_eq!(*resolved.tools(), 2);
    assert_eq!(resolved.snapshot(), &lock);
    assert_eq!(resolved.resolve_from(None), ResolveFrom::Snapshot(&lock));
    let embedded =
        SpineConfiguration::from_sdk(1u8, 2u8, 1, String::from("bundled"), String::from("text"));
    assert_eq!(embedded, resolved);
}

#[test]
fn untrusted_working_directories_add_no_layers() {
    let files = loader(Some("/missing.toml"), "/work", None, false);
    assert!(!files.working_directory_layers);
    assert_eq!(files.custom_path.as_deref(), Some("/missing.toml"));
    assert_eq!(files.home_directory, None);
}

#[test]
fn a_configuration_is_locked_with_its_sources() {
    let optional = vec![SourceFile { path: String::from("home"), digest: Ok(Some(String::from("d-1"))) }];
    let lock = lock_snapshot(1, String::from("bundled"), &optional, None, Ok(String::from("text")));
    assert_eq!(
        lock,
        Ok(snapshot(vec![recorded("home", Some("d-1"))], Some("text")))
    );
    let missing = SourceFile { path: String::from("explicit"), digest: Err(String::from("not found")) };
    assert_eq!(
        lock_snapshot(1, String::new(), &optional, Some(&missing), Ok(String::from("text"))),
        Err(String::from(
            "failed to pin Spine config source explicit in config lock: not found"
        ))
    );
    assert_eq!(
        lock_snapshot(1, String::new(), &optional, None, Err(String::from("bad table"))),
        Err(String::from("bad table"))
    );
}

#[test]
fn sources_are_pinned_in_order() {
    let file = |path: &str, digest: Result<Option<&str>, &str>| SourceFile {
        path: String::from(path),
        digest: digest.map(|d| d.map(String::from)).map_err(String::from),
    };
    let optional = vec![file("home", Ok(Some("d-1"))), file("work", Ok(None))];
    let required = file("explicit", Ok(Some("d-2")));
    let pinned = pin_sources(&optional, Some(&required)).expect("pinned");
    assert_eq!(pinned[0].digest.as_deref(), Some("d-1"));
    assert!(!pinned[0].required);
    let last = &pinned[pinned.len() - 1];
    assert!(last.required);
    assert_eq!(last.path, "explicit");
    let broken = vec![file("home", Err("denied"))];
    assert!(pin_sources(&broken, None).is_err());
    assert_eq!(pin_sources(&vec![], None), Ok(vec![]));
}

fn empty_lock() -> LockConfig {
    LockConfig {
        model: None,
        model_reasoning_effort: None,
        model_reasoning_summary: None,
        service_tier: None,
        instructions: None,
        developer_instructions: None,
        compact_prompt: None,
        personality: None,
        approval_policy: None,
        approvals_reviewer: None,
        web_search: None,
        model_provider: None,
        plan_mode_reasoning_effort: None,
        model_verbosity: None,
        include_permissions_instructions: None,
        include_apps_instructions: None,
        include_collaboration_mode_instructions: None,
        include_environment_context: None,
        background_terminal_max_timeout: None,
        features: None,
        spine_spawn_max_threads: None,
        memories: None,
        agents: None,
        include_skill_instructions: None,
        orchestrator: None,
        spine_config_snapshot: None,
        profile: Some(String::from("work")),
        profiles: vec![String::from("work")],
        debug: Some(1),
        spine_snapshot: Some(2),
        model_instructions_file: Some(String::from("file")),
        experimental_compact_prompt_file: Some(String::from("file")),
        model_catalog_json: Some(String::from("models.json")),
        sandbox_mode: None,
        sandbox_workspace_write: None,
        default_permissions: None,
        permissions: None,
        experimental_use_unified_exec_tool: None,
        spine_config_file: None,
        rest: None,
    }
}

fn choices() -> SessionChoices {
    SessionChoices {
        model: String::from("model"),
        model_reasoning_effort: Some(String::from("high")),
        model_reasoning_summary: None,
        service_tier: Some(String::from("flex")),
        base_instructions: String::from("resolved instructions"),
        developer_instructions: Some(String::from("resolved developer instructions")),
        compact_prompt: Some(String::from("resolved compact prompt")),
        personality: None,
        approval_policy: String::from("never"),
        approvals_reviewer: String::from("user"),
    }
}

fn section(written: &str, enabled: bool) -> ResolvedSection {
    ResolvedSection { written: Ok(String::from(written)), enabled }
}

fn resolved() -> ResolvedConfig {
    let feature = |key: &str, removed: bool, enabled: bool| FeatureSpec {
        key: String::from(key),
        removed,
        enabled,
    };
    ResolvedConfig {
        web_search_mode: String::from("live"),
        model_provider_id: String::from("provider"),
        plan_mode_reasoning_effort: None,
        model_verbosity: None,
        include_permissions_instructions: true,
        include_apps_instructions: false,
        include_collaboration_mode_instructions: true,
        include_environment_context: true,
        background_terminal_max_timeout: 10,
        features: vec![
            feature("code_mode", false, true),
            feature("token_budget", false, true),
            feature("gone", true, true),
        ],
        tool_registry: ToolRegistrySettings {
            error_on_tool_collisions: true,
            written: String::from("error_on_tool_collisions = true"),
        },
        multi_agent_v2: section("max = 3", false),
        token_budget: Some(section("reminder = 16000", true)),
        rollout_budget: None,
        current_time_reminder: None,
        spine_spawn_max_threads: 4,
        memories: Ok(String::from("memories")),
        agents_enabled: true,
        agent_max_threads: Some(6),
        agent_max_depth: 2,
        agent_default_subagent_model: None,
        agent_default_subagent_reasoning_effort: None,
        agent_interrupt_message_enabled: true,
        include_skill_instructions: true,
        orchestrator_skills_enabled: true,
        orchestrator_mcp_enabled: false,
    }
}

#[test]
fn lock_contains_prompts_and_materializes_features() {
    let lock = session_lock(&choices(), true, &resolved(), empty_lock())
        .unwrap_or_else(|error| panic!("{error}"));
    assert_eq!(lock.instructions.as_deref(), Some("resolved instructions"));
    assert_eq!(
        lock.developer_instructions.as_deref(),
        Some("resolved developer instructions")
    );
    assert_eq!(lock.compact_prompt.as_deref(), Some("resolved compact prompt"));
    assert_eq!(lock.model.as_deref(), Some("model"));
    assert_eq!(lock.model_reasoning_effort.as_deref(), Some("high"));
    assert_eq!(lock.profile, None);
    assert!(lock.profiles.is_empty());
    assert_eq!(lock.debug, None);
    assert!(lock.memories.is_some());
    let features = lock.features.expect("lock should materialize feature states");
    assert_eq!(features.get("code_mode"), Some(&FeatureValue::Enabled(true)));
    assert_eq!(features.get("gone"), None);
    assert!(matches!(
        features.get("multi_agent_v2"),
        Some(FeatureValue::Settings { enabled: Some(false), settings }) if settings == "max = 3"
    ));
    assert!(matches!(
        features.get("token_budget"),
        Some(FeatureValue::Settings { enabled: Some(true), settings })
            if settings == "reminder = 16000"
    ));
}

#[test]
fn lock_skips_session_values_when_model_catalog_fields_are_not_saved() {
    let lock = session_lock(&choices(), false, &resolved(), empty_lock())
        .unwrap_or_else(|error| panic!("{error}"));
    assert_eq!(lock.model, None);
    assert_eq!(lock.model_reasoning_effort, None);
    assert_eq!(lock.model_reasoning_summary, None);
    assert_eq!(lock.service_tier, None);
    assert_eq!(lock.instructions, None);
    assert_eq!(lock.developer_instructions, None);
    assert_eq!(lock.compact_prompt, None);
    assert_eq!(lock.personality, None);
    assert_eq!(lock.approval_policy, None);
    assert_eq!(lock.approvals_reviewer, None);
}

#[test]
fn lock_drops_unmanaged_model_catalog_input() {
    let lock = session_lock(&choices(), true, &resolved(), empty_lock())
        .unwrap_or_else(|error| panic!("{error}"));
    assert_eq!(lock.model_catalog_json, None);
    let mut inputs = empty_lock();
    drop_lockfile_inputs(&mut inputs);
    assert_eq!(inputs.model_catalog_json, None);
    let mut controls = empty_lock();
    clear_config_lock_debug_controls(&mut controls);
    assert_eq!(controls.debug, None);
}

#[test]
fn a_section_that_cannot_be_written_fails_the_lock() {
    let config = ResolvedConfig { memories: Err(String::from("no table")), ..resolved() };
    let mut lock = empty_lock();
    lock.features = Some(TextMap::new());
    assert!(save_config_resolved_fields(&config, &mut lock).is_err());
    let features = lock.features.expect("the features stay in the lock");
    assert_eq!(features.get("code_mode"), Some(&FeatureValue::Enabled(true)));
    assert!(session_lock(&choices(), true, &config, empty_lock()).is_err());
    assert_eq!(round_trip_outcome("memories", true), Ok(()));
    assert!(round_trip_outcome("memories", false).is_err());
    assert!(lock_file_name("c-1").contains("c-1"));
}

fn markers() -> FragmentMarkers {
    FragmentMarkers {
        model_switch: String::from("switch"),
        multi_agent_mode: String::from("mode"),
        managed_instructions: String::from("managed"),
        multi_agent_role: String::from("role"),
    }
}

fn world(role: &str, marker: &str, section: u64) -> WorldFragment {
    WorldFragment {
        role: String::from(role),
        marker: String::from(marker),
        requires_separate_message: false,
        section,
    }
}

#[test]
fn the_initial_context_is_assembled_in_order() {
    let parts = ContextParts {
        guardian: false,
        instructions: Some(1),
        recommended_plugins: None,
        thread_fragments: vec![ThreadFragment {
            slot: PromptSlot::DeveloperPolicy,
            text: String::from("policy"),
            section: 2,
        }],
        turn_sections: vec![3],
        token_budget: None,
        world: vec![
            world("developer", "switch", 4),
            world("developer", "managed", 5),
            world("user", "environment", 6),
        ],
    };
    let messages = assemble_initial_context(parts, &markers(), "turn");
    let flat: Vec<u64> = messages.iter().flat_map(|m| m.sections.clone()).collect();
    assert_eq!(flat.first(), Some(&4));
    assert_eq!(flat.last(), Some(&5));
    for section in 1..=6 {
        assert_eq!(flat.iter().filter(|s| **s == section).count(), 1, "{section}");
    }
}

#[test]
fn every_initial_message_belongs_to_the_turn() {
    let parts = ContextParts {
        guardian: true,
        instructions: Some(1),
        recommended_plugins: Some(2),
        thread_fragments: vec![],
        turn_sections: vec![3],
        token_budget: Some(4),
        world: vec![],
    };
    let messages = assemble_initial_context(parts, &markers(), "turn-7");
    assert_eq!(
        messages,
        [vec![3], vec![4], vec![2], vec![1]].map(|sections| ContextMessage {
            sections,
            turn_id: Some(String::from("turn-7")),
        })
    );
    let mut message = ContextMessage { sections: vec![], turn_id: None };
    message.set_turn_id_if_missing("first");
    message.set_turn_id_if_missing("second");
    assert_eq!(message.turn_id.as_deref(), Some("first"));
}

#[test]
fn the_token_budget_is_shown_with_a_window() {
    assert!(shows_token_budget(true, true));
    assert!(!shows_token_budget(true, false));
    assert!(!shows_token_budget(false, true));
    assert!(asks_notes_bridge(true, false));
    assert!(!asks_notes_bridge(true, true));
    assert_eq!(context_window_hint(&vec![], None), None);
}

#[test]
fn an_agent_is_shut_down_with_every_failure_named() {
    assert_eq!(agent_shutdown_outcome("a", &vec![]), Ok(()));
    let error = agent_shutdown_outcome("a", &vec![String::from("x"), String::from("y")])
        .expect_err("failures");
    assert!(error.contains('x') && error.contains('y') && error.contains('a'));
}

#[test]
fn a_missing_agent_can_still_be_closed() {
    assert_eq!(
        close_result(true, Err(AgentError::ThreadNotFound)).is_ok(),
        true
    );
    assert_eq!(
        close_result(false, Err(AgentError::ThreadNotFound)),
        Err(AgentError::ThreadNotFound)
    );
    assert_eq!(descendant_result(Err(AgentError::ThreadNotFound)), Ok(()));
    assert_eq!(
        descendant_result(Err(AgentError::Other(String::from("io")))),
        Err(AgentError::Other(String::from("io")))
    );
    assert_eq!(close_edge_write(Ok(true), true, false), EdgeWrite::Skip);
}

#[test]
fn a_subtree_is_shut_down_until_nothing_lives() {
    let mut shutdown = SubtreeShutdown::new(true);
    shutdown.collected(
        "root",
        Some(Ok(vec![String::from("b")])),
        &vec![String::from("a"), String::from("b")],
    );
    let threads = shutdown.current_threads();
    assert!(threads.contains(&String::from("a")));
    assert!(threads.contains(&String::from("b")));
    shutdown.edges_closed(&vec![]);
    assert_eq!(shutdown.live_shut_down(1, &vec![]), ShutdownNext::CollectAgain);
    shutdown.collected("root", Some(Ok(vec![])), &vec![]);
    shutdown.edges_closed(&vec![]);
    assert_eq!(shutdown.live_shut_down(0, &vec![]), ShutdownNext::Verify);
    assert_eq!(shutdown.verified(&vec![], &vec![]), ShutdownNext::Finish);
    assert_eq!(shutdown.finish(), Ok(()));
}

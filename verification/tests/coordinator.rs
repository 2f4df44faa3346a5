use spine_host::archive::{
    decode_spine_rollout_item, encode_spine_sampling_started, encode_spine_transition,
    is_canonical_rollout, replay_mode, CoordinatorError, ReplayMode, SPINE_ROLLOUT_VERSION,
};
use spine_host::coordinator::{
    durable_input_tokens, settled_spawn_call_ids, CommittedExecution, InstalledCanonicalCommit,
    NodeKind, PreparedContextPlan, SpineCoordinator, TokenUsageSample,
};
use spine_host::fragments::NodeStatus;
use spine_host::history::{ContentItem, HistoryBody, HistoryItem, SpineChar};
use spine_host::observer::{SpineObserver, SpineTreeNodeSnapshot, TreeSnapshot};
use spine_host::replay::{
    boundary_after, check_source_identities, plan_replay, replacement_boundaries,
    ContextWindowSample, ReplayInput,
};
use spine_host::rollout_source::{
    effective_rollout, is_spine_source_item, user_message_projection_entries, ArchiveRecord,
    ArchivedRecord, CompactBarrier, PayloadError, ReplaySeedItem, RolloutEntry, SeedSource,
    SpinetreeUserMessageProjectionEntry, TokenInfo,
};
use spine_host::sampling::{finish_sampling, saved_sampling_config, SamplingFinish};
use spine_host::session::{checkpoint_records, CheckpointRecord, SessionSpineRuntime};
use spine_host::tools::SpineTool;

fn message(role: &str, text: &str) -> HistoryItem {
    let text = String::from(text);
    let content = if role == "assistant" {
        vec![ContentItem::OutputText { text }]
    } else {
        vec![ContentItem::InputText { text, kind: None }]
    };
    HistoryItem {
        id: Some(format!("{role}-id")),
        payload: None,
        body: HistoryBody::Message { role: String::from(role), content },
    }
}

fn source(item: HistoryItem) -> SeedSource {
    SeedSource { item, contextual: false }
}

fn entry(item: HistoryItem) -> RolloutEntry {
    let turn_boundary =
        matches!(&item.body, HistoryBody::Message { role, .. } if role == "user");
    RolloutEntry::ResponseItem { item, contextual: false, turn_boundary }
}

fn open_source() -> [HistoryItem; 2] {
    [
        HistoryItem {
            id: Some(String::from("open-request")),
            payload: None,
            body: HistoryBody::Other {
                encoded: String::from("{\"name\":\"open\",\"arguments\":\"{\\\"summary\\\":\\\"scope\\\"}\"}"),
            },
        },
        HistoryItem {
            id: Some(String::from("open-output")),
            payload: None,
            body: HistoryBody::FunctionCallOutput {
                call_id: Some(String::from("open-call")),
                encoded: String::from("Spine open accepted."),
            },
        },
    ]
}

fn started_record(record: u64) -> ArchiveRecord {
    ArchiveRecord::SamplingStarted { thread: String::from("thread-shadow"), record }
}

fn commit_record(record: u64) -> ArchiveRecord {
    ArchiveRecord::SamplingCommit { thread: String::from("thread-shadow"), record }
}

fn started_with(seed: Option<Vec<ReplaySeedItem>>, record: u64) -> RolloutEntry {
    RolloutEntry::SamplingStarted {
        record: encode_spine_sampling_started(started_record(record)).expect("sampling started"),
        sdk_config: None,
        replay_seed: seed.map(Ok),
    }
}

fn transition(record: u64) -> RolloutEntry {
    RolloutEntry::Transition {
        record: encode_spine_transition(commit_record(record)).expect("transition"),
    }
}

#[test]
fn native_tool_items_are_opaque_across_sampling_interruption() {
    let mut coordinator = SpineCoordinator::new();
    let [request, output] = open_source();
    let items = vec![
        source(request),
        source(message("user", "interrupt")),
        source(output),
    ];

    let cells = coordinator
        .observe_response_items(&items)
        .expect("native tool interruption must remain opaque to Spine")
        .characters;

    assert!(matches!(cells[0], SpineChar::Opaque { .. }));
    assert!(matches!(cells[1], SpineChar::Message(_)));
    assert!(matches!(cells[2], SpineChar::Opaque { .. }));
}

#[test]
fn canonical_replay_mode_fails_closed_for_malformed_or_unsupported_started_record() {
    let malformed = RolloutEntry::SamplingStarted {
        record: ArchivedRecord {
            version: SPINE_ROLLOUT_VERSION,
            payload: Err(PayloadError::Codec(String::from("missing field"))),
        },
        sdk_config: None,
        replay_seed: None,
    };
    let malformed_effective = vec![(0, &malformed)];
    assert!(replay_mode(&malformed_effective).is_err());

    let unsupported = RolloutEntry::SamplingStarted {
        record: ArchivedRecord {
            version: SPINE_ROLLOUT_VERSION.saturating_add(1),
            payload: Ok(started_record(0)),
        },
        sdk_config: None,
        replay_seed: None,
    };
    let unsupported_effective = vec![(0, &unsupported)];
    let error = replay_mode(&unsupported_effective).expect_err("unsupported version");
    assert_eq!(error, CoordinatorError::UnsupportedVersion(3));
    assert_eq!(error.message(), "unsupported Spine rollout version 3");
}

#[test]
fn canonical_replay_mode_uses_the_rollback_selected_prefix() {
    let rollout = vec![
        entry(message("user", "legacy prefix")),
        entry(message("user", "canonical turn")),
        started_with(None, 0),
        RolloutEntry::ThreadRolledBack { num_turns: 1 },
    ];

    let effective = effective_rollout(&rollout);
    assert_eq!(
        replay_mode(&effective).expect("rolled-back sampling start is absent"),
        ReplayMode::Native
    );
}

#[test]
fn spine_durability_fault_is_sticky_and_rejects_sampling() {
    let mut coordinator = SpineCoordinator::new();
    coordinator.latch_durability_fault(String::from("write failed"));
    coordinator.latch_durability_fault(String::from("later failure"));

    assert_eq!(
        coordinator.durability_fault.as_deref(),
        Some("write failed")
    );
    let error = coordinator.require_healthy().expect_err("faulted");
    assert_eq!(error.message(), "Spine durability is faulted: write failed");
    assert!(coordinator.begin_finish(None, Some(1)).is_err());
    assert!(coordinator.observe_response_items(&vec![]).is_err());
}

fn snapshot() -> TreeSnapshot {
    TreeSnapshot {
        last_boundary: Some(5),
        cursor: String::from("1"),
        nodes: vec![SpineTreeNodeSnapshot {
            node_id: String::from("1"),
            parent_id: None,
            kind: NodeKind::RootEpoch,
            status: NodeStatus::Live,
            summary: None,
            memory_summary: None,
            spawn_outcome: None,
            start: 0,
            end: None,
            context_pressure: None,
        }],
    }
}

fn observer() -> SpineObserver {
    SpineObserver {
        tells_tree: true,
        writes_memory: true,
        fallback_event_id: String::from("fallback-event"),
        jit_enabled: true,
    }
}

#[test]
fn spawn_settlement_is_local_to_the_live_sampling_commit() {
    let observer = observer();
    let spawn = settled_spawn_call_ids(&vec![CommittedExecution {
        is_spawn: true,
        execution_ref: String::from("reused-call"),
    }]);
    assert_eq!(spawn, ["reused-call"]);
    let publication = observer.publish_committed(snapshot(), &vec![], vec![], vec![], spawn);
    let event = publication.tree.expect("spawn commit must publish a tree update");
    assert_eq!(event.update.settled_spawn_call_ids, ["reused-call"]);

    let open = settled_spawn_call_ids(&vec![CommittedExecution {
        is_spawn: false,
        execution_ref: String::from("reused-call"),
    }]);
    assert_eq!(open, Vec::<String>::new());
    let publication = observer.publish_committed(snapshot(), &vec![], vec![], vec![], open);
    let event = publication.tree.expect("open commit must publish a tree update");
    assert_eq!(event.update.settled_spawn_call_ids, Vec::<String>::new());

    let mut coordinator = SpineCoordinator::new();
    assert!(coordinator.observe_token_count(Some(TokenInfo {
        input_tokens: 10_001,
        model_context_window: Some(80_000),
    })));
    let usage_event = observer
        .publish_usage(snapshot(), String::from("usage-turn"))
        .expect("usage update");
    assert_eq!(
        (usage_event.id, usage_event.update.settled_spawn_call_ids),
        ("usage-turn".to_string(), Vec::<String>::new())
    );
}

#[test]
fn observers_hear_of_the_last_turn_and_only_with_contexts_in_time() {
    let turns = vec![Some(String::from("a")), Some(String::from("b")), None];
    let user_messages = || {
        vec![SpinetreeUserMessageProjectionEntry { anchor: 1, body: String::from("hello") }]
    };
    let publication =
        observer().publish_committed(snapshot(), &turns, vec![], user_messages(), vec![]);
    let event = publication.tree.expect("tree");
    assert_eq!(event.id, "b");
    assert_eq!(event.update.snapshot_seq, 5);
    assert_eq!(event.update.active_node_id, "1");
    assert_eq!(event.update.nodes, snapshot().nodes);
    assert_eq!(publication.memory.expect("memory").user_messages, user_messages());

    let before = TreeSnapshot { last_boundary: None, ..snapshot() };
    let publication = observer().publish_committed(before, &vec![None], vec![], vec![], vec![]);
    let event = publication.tree.expect("tree");
    assert_eq!(event.id, "fallback-event");
    assert_eq!(event.update.snapshot_seq, 0);

    let silent = SpineObserver { jit_enabled: false, ..observer() };
    let publication = silent.publish_committed(snapshot(), &turns, vec![], vec![], vec![]);
    assert!(publication.tree.is_none());
    assert!(publication.memory.is_none());
    assert!(silent.publish_usage(snapshot(), String::from("t")).is_none());
    let untold = SpineObserver { tells_tree: false, writes_memory: false, ..observer() };
    let publication = untold.publish_committed(snapshot(), &turns, vec![], vec![], vec![]);
    assert!(publication.tree.is_none());
    assert!(publication.memory.is_none());
}

fn named(id: &str, role: &str, text: &str) -> HistoryItem {
    HistoryItem { id: Some(String::from(id)), ..message(role, text) }
}

/// What a live session told the runtime, and what it wrote to its rollout.
struct Lived {
    coordinator: SpineCoordinator,
    told: Vec<ReplayInput>,
    rollout: Vec<RolloutEntry>,
}

impl Lived {
    fn observe(&mut self, id: &str, role: &str) {
        let seen = self
            .coordinator
            .observe_response_items(&vec![source(named(id, role, id))])
            .expect("observe");
        self.told.extend(seen.characters.into_iter().map(ReplayInput::Source));
        self.rollout.push(entry(named(id, role, id)));
    }

    fn start(&mut self, record: u64) {
        let item = self
            .coordinator
            .sampling_started_item(Ok(started_record(record)), Ok(String::from("config")))
            .expect("start");
        self.told.push(ReplayInput::Archive(started_record(record)));
        self.rollout.push(RolloutEntry::SamplingStarted {
            record: item.record,
            sdk_config: item.sdk_config,
            replay_seed: item.replay_seed.map(Ok),
        });
    }
}

#[test]
fn a_replay_tells_the_runtime_what_the_live_session_told() {
    let mut lived =
        Lived { coordinator: SpineCoordinator::new(), told: Vec::new(), rollout: Vec::new() };
    lived.observe("question", "user");
    let info = TokenInfo { input_tokens: 5, model_context_window: Some(100) };
    assert!(lived.coordinator.observe_token_count(Some(info)));
    lived.told.push(ReplayInput::Usage { boundary: 1, input_tokens: 5 });
    lived.rollout.push(RolloutEntry::TokenCount { info: Some(info) });
    lived.start(0);
    lived.start(1);
    lived.observe("answer", "assistant");
    lived.told.push(ReplayInput::Archive(commit_record(2)));
    lived.rollout.push(transition(2));
    lived.observe("more", "user");
    let replacement =
        || vec![named("summary", "user", "summary"), named("so-far", "assistant", "so far")];
    let prepared = lived
        .coordinator
        .prepare_compact("thread-shadow", 0, &replacement())
        .expect("compact");
    lived.told.push(ReplayInput::Compact(CompactBarrier {
        thread: String::from("thread-shadow"),
        epoch: 0,
        next_epoch: 1,
        boundary: 3,
        replacement_boundaries: vec![4, 5],
    }));
    lived
        .coordinator
        .install_compact(prepared, vec![String::from("cell-0"), String::from("cell-1")]);
    lived.rollout.push(RolloutEntry::Compacted {
        message: String::from("compacted"),
        replacement_history: Some(replacement()),
    });
    lived.observe("go-on", "user");

    let plan = replayed(&lived.rollout);
    assert_eq!(plan.inputs, lived.told);
    assert_eq!(plan.next_boundary, lived.coordinator.next_boundary);
    assert_eq!(plan.next_boundary, 7);
    assert_eq!(plan.epoch, 1);
    assert_eq!(plan.used, 3);
    let mut projected = replacement();
    projected.push(named("go-on", "user", "go-on"));
    assert_eq!(plan.projected, projected);
}

#[test]
fn of_two_opaque_items_with_one_identity_a_replay_keeps_the_later() {
    let output = |encoded: &str| HistoryItem {
        id: Some(String::from("output")),
        payload: None,
        body: HistoryBody::FunctionCallOutput {
            call_id: Some(String::from("call")),
            encoded: String::from(encoded),
        },
    };
    let mut lived =
        Lived { coordinator: SpineCoordinator::new(), told: Vec::new(), rollout: Vec::new() };
    for encoded in ["earlier", "later"] {
        let seen = lived
            .coordinator
            .observe_response_items(&vec![source(output(encoded))])
            .expect("observe");
        lived.told.extend(seen.characters.into_iter().map(ReplayInput::Source));
        lived.rollout.push(entry(output(encoded)));
    }
    lived.start(0);
    let plan = replayed(&lived.rollout);
    assert_eq!(plan.inputs, lived.told);
    assert_eq!(plan.next_boundary, 2);
    assert_eq!(plan.projected, vec![output("later"), output("later")]);
}

#[test]
fn a_finished_replay_is_the_context_or_a_fault() {
    let session = || {
        SessionSpineRuntime::new(true, Some(SpineCoordinator::new())).expect("an enabled session")
    };
    let mut resumed = session();
    assert_eq!(resumed.replay_finished(Ok(vec![message("user", "question")])), Ok(()));
    assert_eq!(resumed.model_context, vec![message("user", "question")]);

    let mut broken = session();
    let error = broken
        .replay_finished(Err(CoordinatorError::Replay(String::from("order"))))
        .expect_err("a failed replay");
    let coordinator = broken.coordinator.expect("the coordinator stays");
    assert_eq!(coordinator.durability_fault, Some(error));

    let mut empty = SessionSpineRuntime::new(true, None).expect("an enabled session");
    assert_eq!(
        empty.replay_finished(Ok(vec![])),
        Err(String::from("Spine coordinator is unavailable during replay"))
    );
}

#[test]
fn canonical_replay_does_not_resettle_historical_spawn_calls() {
    let user = || message("user", "question");
    let response = || message("assistant", "spawn completed");
    let executions = vec![CommittedExecution {
        is_spawn: true,
        execution_ref: String::from("spawn-call"),
    }];
    let context = || PreparedContextPlan {
        items: vec![user(), response()],
        user_messages: vec![SpinetreeUserMessageProjectionEntry {
            anchor: 1,
            body: String::from("question"),
        }],
    };
    let live_commit = InstalledCanonicalCommit::committed(context(), &executions);
    assert_eq!(live_commit.settled_spawn_call_ids, ["spawn-call"]);
    assert_eq!(live_commit.context, context());

    let rollout = vec![entry(user()), started_with(None, 0), entry(response()), transition(1)];
    let plan = replayed(&rollout);
    let cells = vec![String::from("cell-0"), String::from("cell-1")];
    let mut resumed = SpineCoordinator::new();
    let replayed = resumed.install_replay(
        plan,
        cells,
        vec![],
        Some(context()),
        &live_commit.context.items,
    );
    assert_eq!(replayed.context, context());
    assert_eq!(replayed.settled_spawn_call_ids, Vec::<String>::new());
    assert_eq!(resumed.user_messages, context().user_messages);
    assert_eq!(
        InstalledCanonicalCommit::replayed(None, &vec![user()]),
        InstalledCanonicalCommit {
            context: PreparedContextPlan { items: vec![user()], user_messages: vec![] },
            settled_spawn_call_ids: vec![],
        }
    );
}

fn replayed(rollout: &Vec<RolloutEntry>) -> spine_host::replay::ReplayPlan {
    let effective = effective_rollout(rollout);
    let ReplayMode::Canonical { thread, records } =
        replay_mode(&effective).expect("canonical replay mode")
    else {
        panic!("rollout must be canonical");
    };
    plan_replay(&effective, &thread, &records).expect("replay canonical rollout")
}

#[test]
fn canonical_replay_accepts_persisted_reasoning_with_omitted_empty_content() {
    let reasoning = |content| HistoryItem {
        id: Some(String::from("reasoning-id")),
        payload: None,
        body: HistoryBody::Reasoning { content },
    };
    let mut live = SpineCoordinator::new();
    let seen = live
        .observe_response_items(&vec![
            source(message("user", "question")),
            source(reasoning(Some(Vec::new()))),
        ])
        .expect("observe live reasoning");
    let rollout = vec![
        started_with(None, 0),
        entry(message("user", "question")),
        entry(reasoning(None)),
        transition(1),
    ];
    let plan = replayed(&rollout);

    assert_eq!(plan.projected, seen.projected);
    let characters: Vec<&SpineChar> = plan
        .inputs
        .iter()
        .filter_map(|input| match input {
            ReplayInput::Source(character) => Some(character),
            _ => None,
        })
        .collect();
    assert_eq!(characters, seen.characters.iter().collect::<Vec<_>>());
    assert_eq!(plan.next_boundary, live.next_boundary);
}

#[test]
fn canonical_replay_accepts_host_tool_output_presentation_difference() {
    let request = || HistoryItem {
        id: Some(String::from("large-request")),
        payload: None,
        body: HistoryBody::Other { encoded: String::from("{\"cmd\":\"large-output\"}") },
    };
    let output = |encoded: String| HistoryItem {
        id: Some(String::from("large-output")),
        payload: None,
        body: HistoryBody::FunctionCallOutput {
            call_id: Some(String::from("large-call")),
            encoded,
        },
    };
    let mut live = SpineCoordinator::new();
    live.observe_response_items(&vec![
        source(request()),
        source(output(String::from("host-truncated"))),
    ])
    .expect("observe host-processed source");
    let started = live
        .sampling_started_item(Ok(started_record(0)), Ok(String::from("config")))
        .expect("sampling started");

    let raw_output = || output("raw persisted output".repeat(1_000));
    let rollout = vec![
        entry(request()),
        entry(raw_output()),
        RolloutEntry::SamplingStarted {
            record: started.record,
            sdk_config: started.sdk_config,
            replay_seed: started.replay_seed.map(Ok),
        },
        transition(1),
    ];
    let plan = replayed(&rollout);
    assert_eq!(plan.projected, vec![request(), raw_output()]);
    assert_eq!(plan.next_boundary, live.next_boundary);
}

#[test]
fn canonical_replay_continues_after_orphan_sampling_started() {
    let mut interrupted = SpineCoordinator::new();
    interrupted
        .observe_response_items(&vec![source(message("user", "question"))])
        .expect("observe prompt source");
    let orphan = interrupted
        .sampling_started_item(Ok(started_record(0)), Ok(String::from("config")))
        .expect("orphan sampling started");
    let orphan = || RolloutEntry::SamplingStarted {
        record: ArchivedRecord { version: 2, payload: Ok(started_record(0)) },
        sdk_config: orphan.sdk_config.clone(),
        replay_seed: Some(Ok(vec![ReplaySeedItem::Source {
            boundary: 0,
            item: Some(source(message("user", "question"))),
        }])),
    };
    let plan = replayed(&vec![entry(message("user", "question")), orphan()]);
    assert_eq!(plan.next_boundary, 1);

    let mut resumed = SpineCoordinator::new();
    let native = vec![message("user", "question")];
    let installed =
        resumed.install_replay(plan, vec![String::from("cell-0")], vec![], None, &native);
    assert_eq!(installed.context.items, native);
    assert_eq!(installed.context.user_messages, vec![]);
    assert_eq!(installed.settled_spawn_call_ids, Vec::<String>::new());
    assert_eq!(resumed.take_replay_seed(), None);
    let continued = resumed
        .sampling_started_item(Ok(started_record(1)), Ok(String::from("config")))
        .expect("continued sampling started");
    assert_eq!(continued.replay_seed, None);

    let plan = replayed(&vec![
        entry(message("user", "question")),
        orphan(),
        started_with(None, 1),
        entry(message("assistant", "answer")),
        transition(2),
    ]);
    assert_eq!(plan.used, 3);
    assert_eq!(plan.next_boundary, 2);
    assert_eq!(
        plan.projected,
        vec![message("user", "question"), message("assistant", "answer")]
    );
}

#[test]
fn codex_context_materialization_failure_discards_sdk_candidate() {
    let finished = finish_sampling(
        Some(commit_record(1)),
        Err(String::from("Spine-owned model item is too large")),
    );
    let SamplingFinish::Discard(error) = finished else {
        panic!("a context that cannot be made must discard the commit");
    };
    assert!(matches!(error, CoordinatorError::ContextPlan(_)));
    assert_eq!(
        error.message(),
        "Spine context plan failed: Spine-owned model item is too large"
    );
}

#[test]
fn a_finished_sampling_commits_its_transition() {
    let plan = || PreparedContextPlan {
        items: vec![message("user", "hello")],
        user_messages: vec![SpinetreeUserMessageProjectionEntry {
            anchor: 1,
            body: String::from("hello"),
        }],
    };
    assert!(matches!(finish_sampling(None, Ok(plan())), SamplingFinish::Nothing));
    let SamplingFinish::Commit { transition, context } =
        finish_sampling(Some(commit_record(4)), Ok(plan()))
    else {
        panic!("expected a commit");
    };
    assert_eq!(transition.version, SPINE_ROLLOUT_VERSION);
    assert_eq!(transition.payload, Ok(commit_record(4)));
    assert_eq!(context, plan());
    let SamplingFinish::Discard(error) = finish_sampling(Some(started_record(4)), Ok(plan()))
    else {
        panic!("expected a refusal");
    };
    assert_eq!(
        error.message(),
        "Spine archive failed: Spine transition item requires a sampling commit"
    );
}

#[test]
fn spine_compact_live_preserves_session_user_message_projection() {
    let mut coordinator = SpineCoordinator::new();
    coordinator
        .observe_response_items(&vec![source(message("user", "before compact"))])
        .expect("observe prompt source");
    coordinator.publish_user_messages(vec![SpinetreeUserMessageProjectionEntry {
        anchor: 1,
        body: String::from("before compact"),
    }]);
    assert_eq!(coordinator.user_messages.len(), 1);

    let prepared = coordinator
        .prepare_compact("thread", 0, &vec![message("assistant", "compact summary")])
        .expect("prepare compact context");
    assert_eq!(prepared.barrier.next_epoch, 1);
    assert_eq!(prepared.barrier.boundary, 1);
    assert_eq!(prepared.barrier.replacement_boundaries, vec![2]);
    coordinator.install_compact(prepared, vec![String::from("cell-0")]);

    assert_eq!(coordinator.next_boundary, 3);
    assert_eq!(coordinator.user_messages.len(), 1);
    assert_eq!(coordinator.user_messages[0].body, "before compact");
}

#[test]
fn spine_transition_is_durable_but_not_model_visible() {
    let extension = || RolloutEntry::Transition {
        record: ArchivedRecord {
            version: 1,
            payload: Err(PayloadError::Archive(String::from("diagnostic-only"))),
        },
    };
    let rollout = vec![extension()];
    assert_eq!(effective_rollout(&rollout).len(), 1);
    assert!(!is_spine_source_item(&extension()));
    assert!(user_message_projection_entries(&rollout).is_empty());
}

#[test]
fn a_node_can_be_closed_only_below_the_root() {
    let coordinator = SpineCoordinator::new();
    assert_eq!(
        coordinator.validate_control(SpineTool::Close, Some(NodeKind::RootEpoch)),
        Err(String::from("no open Spine node is available to close"))
    );
    assert_eq!(
        coordinator.validate_control(SpineTool::Next, None),
        Err(String::from("Spine cursor is missing from the derived tree"))
    );
    assert_eq!(
        coordinator.validate_control(SpineTool::Close, Some(NodeKind::Task)),
        Ok(())
    );
    assert_eq!(coordinator.validate_control(SpineTool::Open, None), Ok(()));
}

#[test]
fn records_come_back_from_their_entries() {
    let started = started_with(None, 7);
    assert_eq!(
        decode_spine_rollout_item(&started).expect("decode"),
        Some(&started_record(7))
    );
    assert_eq!(
        decode_spine_rollout_item(&transition(8)).expect("decode"),
        Some(&commit_record(8))
    );
    assert_eq!(decode_spine_rollout_item(&RolloutEntry::Other).expect("decode"), None);
    let swapped = RolloutEntry::Transition {
        record: ArchivedRecord { version: 2, payload: Ok(started_record(1)) },
    };
    assert!(decode_spine_rollout_item(&swapped).is_err());
    assert!(encode_spine_sampling_started(commit_record(1)).is_err());
    assert!(encode_spine_transition(started_record(1)).is_err());
    let codec = RolloutEntry::Transition {
        record: ArchivedRecord {
            version: 2,
            payload: Err(PayloadError::Codec(String::from("bad json"))),
        },
    };
    assert_eq!(
        decode_spine_rollout_item(&codec).expect_err("codec").message(),
        "Spine rollout codec failed: bad json"
    );
}

#[test]
fn a_commit_without_a_start_is_no_canonical_rollout() {
    assert_eq!(is_canonical_rollout(&vec![entry(message("user", "a"))]), Ok(false));
    assert_eq!(is_canonical_rollout(&vec![started_with(None, 1)]), Ok(true));
    assert!(is_canonical_rollout(&vec![transition(1)]).is_err());
}

#[test]
fn a_rollout_without_a_seed_is_replayed_from_its_items() {
    let rollout = vec![
        entry(message("user", "old")),
        RolloutEntry::TokenCount {
            info: Some(TokenInfo { input_tokens: 5, model_context_window: Some(100) }),
        },
        RolloutEntry::Compacted { message: String::from("summary"), replacement_history: None },
        started_with(None, 1),
        entry(message("assistant", "new")),
        transition(2),
    ];
    let plan = replayed(&rollout);
    assert_eq!(plan.epoch, 1);
    assert_eq!(plan.used, 2);
    assert_eq!(plan.projected.len(), 2);
    assert_eq!(
        plan.context_window_samples,
        vec![ContextWindowSample { boundary: 1, model_context_window: 100 }]
    );
    assert_eq!(plan.next_boundary, 4);
    assert_eq!(replacement_boundaries(1, 2), vec![2, 3]);
    assert_eq!(boundary_after(1, &vec![2, 3]), 4);
    assert_eq!(boundary_after(1, &vec![]), 2);
    assert_eq!(check_source_identities(2, plan.projected.len()), Ok(()));
    assert!(check_source_identities(1, 2).is_err());
}

#[test]
fn a_damaged_seed_is_refused() {
    let rollout = vec![RolloutEntry::SamplingStarted {
        record: ArchivedRecord { version: 2, payload: Ok(started_record(1)) },
        sdk_config: None,
        replay_seed: Some(Err(String::from("bad json"))),
    }];
    let effective = effective_rollout(&rollout);
    assert_eq!(
        plan_replay(&effective, "t", &vec![started_record(1)]).expect_err("damaged").message(),
        "Spine replay failed: invalid initialization seed: bad json"
    );
    let empty = vec![started_with(
        Some(vec![ReplaySeedItem::Source { boundary: 0, item: None }]),
        1,
    )];
    let effective = effective_rollout(&empty);
    assert_eq!(
        plan_replay(&effective, "t", &vec![started_record(1)]).expect_err("no item").message(),
        "Spine replay failed: initialization seed source must contain a response item"
    );
    let missing = vec![started_with(None, 1)];
    let effective = effective_rollout(&missing);
    assert_eq!(
        plan_replay(&effective, "t", &vec![]).expect_err("no record").message(),
        "Spine replay failed: canonical replay record order diverged"
    );
}

#[test]
fn a_resumed_session_stands_where_it_stood() {
    let mut live = SpineCoordinator::new();
    live.observe_response_items(&vec![source(message("user", "one"))]).expect("observe");
    live.observe_token_count(Some(TokenInfo { input_tokens: 3, model_context_window: None }));
    let prepared = live
        .prepare_compact("thread-shadow", 0, &vec![message("assistant", "summary")])
        .expect("prepare");
    live.install_compact(prepared, vec![String::from("cell")]);
    live.observe_response_items(&vec![source(message("user", "two"))]).expect("observe");
    let standing = live.next_boundary;
    let started = live
        .sampling_started_item(Ok(started_record(0)), Ok(String::from("config")))
        .expect("started");
    let rollout = vec![RolloutEntry::SamplingStarted {
        record: started.record,
        sdk_config: started.sdk_config,
        replay_seed: started.replay_seed.map(Ok),
    }];
    let plan = replayed(&rollout);
    assert_eq!(plan.next_boundary, standing);
    assert_eq!(plan.inputs.len(), 5);
    assert_eq!(plan.epoch, 1);
    assert_eq!(saved_sampling_config(&rollout), Some(String::from("config")));
}

#[test]
fn a_start_that_is_not_recorded_keeps_the_seed() {
    let mut coordinator = SpineCoordinator::new();
    coordinator
        .observe_response_items(&vec![source(message("user", "one"))])
        .expect("observe");
    let error = coordinator
        .sampling_started_item(Ok(started_record(0)), Err(String::from("no toml")))
        .expect_err("codec");
    assert_eq!(error, CoordinatorError::Codec(String::from("no toml")));
    assert!(coordinator.sampling_started_item(Ok(commit_record(0)), Ok(String::new())).is_err());
    assert!(
        coordinator
            .sampling_started_item(
                Err(CoordinatorError::Sampling(String::from("busy"))),
                Ok(String::new())
            )
            .is_err()
    );
    assert_eq!(coordinator.take_replay_seed().map(|seed| seed.len()), Some(1));
}

#[test]
fn the_last_recorded_configuration_in_effect_is_taken_over() {
    let with_config = |config: Option<&str>| RolloutEntry::SamplingStarted {
        record: ArchivedRecord { version: 2, payload: Ok(started_record(0)) },
        sdk_config: config.map(String::from),
        replay_seed: None,
    };
    assert_eq!(saved_sampling_config(&vec![]), None);
    let rollout = vec![
        entry(message("user", "a")),
        with_config(Some("first")),
        entry(message("user", "b")),
        with_config(Some("second")),
        with_config(None),
    ];
    assert_eq!(saved_sampling_config(&rollout), Some(String::from("second")));
    let mut rolled_back = rollout;
    rolled_back.push(RolloutEntry::ThreadRolledBack { num_turns: 1 });
    assert_eq!(saved_sampling_config(&rolled_back), Some(String::from("first")));
}

#[test]
fn usage_and_windows_are_noted_where_the_source_stands() {
    let mut coordinator = SpineCoordinator::new();
    assert!(!coordinator.observe_token_count(None));
    assert_eq!(coordinator.begin_finish(Some(80), Some(7)), Ok(Some(7)));
    assert_eq!(coordinator.begin_finish(Some(80), Some(-1)), Ok(None));
    assert_eq!(coordinator.begin_finish(Some(90), None), Ok(None));
    assert_eq!(
        coordinator.context_window_samples,
        vec![
            ContextWindowSample { boundary: 0, model_context_window: 80 },
            ContextWindowSample { boundary: 0, model_context_window: 90 },
        ]
    );
    assert!(coordinator.observe_token_count(Some(TokenInfo {
        input_tokens: 12,
        model_context_window: None,
    })));
    assert_eq!(
        coordinator.usage_samples,
        vec![TokenUsageSample { boundary: 0, input_tokens: 12 }]
    );
    assert_eq!(durable_input_tokens(Some(i64::MAX)), Some(i64::MAX as u64));
    assert_eq!(durable_input_tokens(Some(-5)), None);
}

#[test]
fn a_failure_of_the_session_is_latched() {
    assert!(SessionSpineRuntime::new(false, None).is_none());
    let mut session =
        SessionSpineRuntime::new(true, Some(SpineCoordinator::new())).expect("session");
    assert!(session.records_sampling(true));
    assert!(!session.records_sampling(false));
    let seen = session
        .append_response_items(&vec![source(message("user", "one"))])
        .expect("append")
        .expect("observed");
    assert_eq!(
        session.context_prepared(
            vec![String::from("cell-0")],
            &seen.projected,
            Ok(vec![message("user", "one")])
        ),
        Ok(())
    );
    assert_eq!(session.model_context, vec![message("user", "one")]);
    let error = CoordinatorError::ContextPlan(String::from("too large"));
    assert_eq!(
        session.context_prepared(vec![], &vec![], Err(error)),
        Err(String::from("Spine context plan failed: too large"))
    );
    assert_eq!(
        session.coordinator.as_ref().and_then(|c| c.durability_fault.clone()),
        Some(String::from("Spine context plan failed: too large"))
    );
    assert!(session.append_response_items(&vec![]).is_err());
}

#[test]
fn an_install_that_fails_after_persistence_faults_the_session() {
    let mut session =
        SessionSpineRuntime::new(true, Some(SpineCoordinator::new())).expect("session");
    assert_eq!(
        session.commit_installed(vec![message("user", "one")], vec![]),
        Ok(())
    );
    assert_eq!(
        session.install_failed(CoordinatorError::Planner(String::from("diverged"))),
        "Spine canonical install failed after durable acknowledgement: Spine planner failed: diverged"
    );
    assert_eq!(session.latch_error(String::from("later")), "later");
    assert_eq!(
        session.coordinator.as_ref().and_then(|c| c.durability_fault.clone()),
        Some(String::from("Spine planner failed: diverged"))
    );
    session.install_model_context(vec![]);
    assert!(session.model_context.is_empty());
    let mut gone = SessionSpineRuntime::new(true, None).expect("session");
    assert_eq!(
        gone.commit_installed(vec![], vec![]),
        Err(String::from("Spine coordinator disappeared before publication"))
    );
}

#[test]
fn unreadable_records_fault_the_session() {
    let mut session =
        SessionSpineRuntime::new(true, Some(SpineCoordinator::new())).expect("session");
    assert_eq!(
        session.replay_mode(&vec![entry(message("user", "a"))]),
        Ok(ReplayMode::Native)
    );
    assert!(session.replay_mode(&vec![transition(1)]).is_err());
    assert!(
        session
            .coordinator
            .as_ref()
            .is_some_and(|coordinator| coordinator.durability_fault.is_some())
    );
}

#[test]
fn a_checkpoint_is_persisted_in_order() {
    assert_eq!(
        checkpoint_records(true, true),
        vec![
            CheckpointRecord::Compacted,
            CheckpointRecord::WorldState,
            CheckpointRecord::TurnContext,
            CheckpointRecord::SettingsApplied,
        ]
    );
    assert_eq!(
        checkpoint_records(false, false),
        vec![CheckpointRecord::Compacted, CheckpointRecord::SettingsApplied]
    );
}

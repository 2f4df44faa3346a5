use serde_json::Value;
use spine_host::context_plan::{
    cell_item, projected_item_wire_bytes, CellOrigin, ContextPlanner, PlanAction, PlannedItem,
};
use spine_host::fragments::{
    spine_model_item_wire_bytes, ContentItemKind, NodeStatus, SpawnOutcome, SpineUserAnchor,
    MAX_SPINE_MODEL_ITEM_WIRE_BYTES,
};
use spine_host::history::{
    canonical_projected_item, message_from_response_item, response_item_to_char_and_source,
    same_projected_identity, text_message, ContentItem, HistoryBody, HistoryItem, MessageRole,
    SpineChar,
};
use spine_host::materialize::{materialize_context, ContextItem, MemorySlot, NativeItemRef};
use spine_host::rollout_source::{
    effective_rollout, is_spine_source_item, truncate_to_current_sampling_start,
    user_message_projection_entries, ArchiveRecord, ArchivedRecord, RolloutEntry,
    SpinetreeUserMessageProjectionEntry,
};
use spine_host::spawn::SpawnTask;

fn message_item(role: &str, text: &str) -> HistoryItem {
    HistoryItem {
        id: None,
        payload: None,
        body: HistoryBody::Message {
            role: String::from(role),
            content: vec![ContentItem::InputText { text: String::from(text), kind: None }],
        },
    }
}

fn message(role: &str, text: &str) -> RolloutEntry {
    let contextual = text.starts_with('<');
    RolloutEntry::ResponseItem {
        item: message_item(role, text),
        contextual,
        turn_boundary: role == "user" && !contextual,
    }
}

fn entry(item: HistoryItem) -> RolloutEntry {
    RolloutEntry::ResponseItem { item, contextual: false, turn_boundary: false }
}

fn started() -> RolloutEntry {
    RolloutEntry::SamplingStarted {
        record: ArchivedRecord {
            version: 2,
            payload: Ok(ArchiveRecord::SamplingStarted { thread: String::from("t"), record: 1 }),
        },
        sdk_config: None,
        replay_seed: None,
    }
}

fn transition() -> RolloutEntry {
    RolloutEntry::Transition {
        record: ArchivedRecord {
            version: 2,
            payload: Ok(ArchiveRecord::SamplingCommit { thread: String::from("t"), record: 2 }),
        },
    }
}

fn multimodal(id: &str) -> HistoryItem {
    HistoryItem {
        id: Some(String::from(id)),
        payload: None,
        body: HistoryBody::Message {
            role: String::from("user"),
            content: vec![
                ContentItem::InputImage { image_url: String::from("data:image/png;base64,abc") },
                ContentItem::InputText { text: String::from("inspect image"), kind: None },
            ],
        },
    }
}

fn text(item: &HistoryItem) -> &str {
    let HistoryBody::Message { content, .. } = &item.body else {
        panic!("expected message");
    };
    let ContentItem::InputText { text, .. } = &content[0] else {
        panic!("expected input text");
    };
    text
}

#[test]
fn rollback_selected_prefix_trims_pre_turn_context_updates() {
    let rollout = vec![
        message(
            "developer",
            "<permissions instructions>base</permissions instructions>",
        ),
        message("user", "first"),
        message("assistant", "first response"),
        message(
            "developer",
            "<collaboration_mode>rolled back</collaboration_mode>",
        ),
        message("user", "second"),
        message("assistant", "second response"),
        RolloutEntry::ThreadRolledBack { num_turns: 1 },
    ];

    let effective = effective_rollout(&rollout);
    assert_eq!(
        effective,
        vec![(0, &rollout[0]), (1, &rollout[1]), (2, &rollout[2])]
    );
}

#[test]
fn non_context_rollout_records_do_not_change_source_ordinals() {
    let response_only = vec![message("user", "request"), message("assistant", "answer")];
    let with_metadata = vec![
        message("user", "request"),
        RolloutEntry::Other,
        message("assistant", "answer"),
    ];

    let response_only = effective_rollout(&response_only)
        .into_iter()
        .map(|(ordinal, _)| ordinal)
        .collect::<Vec<_>>();
    let with_metadata = effective_rollout(&with_metadata)
        .into_iter()
        .map(|(ordinal, _)| ordinal)
        .collect::<Vec<_>>();
    assert_eq!(response_only, vec![0, 1]);
    assert_eq!(with_metadata, response_only);
}

#[test]
fn user_message_projection_entries_follow_effective_rollout() {
    let rollout = vec![
        message("user", "<environment_context>context</environment_context>"),
        message("user", "first"),
        message("assistant", "answer"),
        message("user", "second"),
    ];

    assert_eq!(
        user_message_projection_entries(&rollout),
        vec![
            SpinetreeUserMessageProjectionEntry {
                anchor: 1,
                body: "first".to_string(),
            },
            SpinetreeUserMessageProjectionEntry {
                anchor: 2,
                body: "second".to_string(),
            },
        ]
    );
}

#[test]
fn source_span_materializes_native_request_and_output_in_order() {
    let request = || HistoryItem {
        id: Some(String::from("request")),
        payload: None,
        body: HistoryBody::Other {
            encoded: String::from(
                "{\"name\":\"shell\",\"arguments\":\"{\\\"cmd\\\":\\\"pwd\\\"}\",\"call_id\":\"call\"}",
            ),
        },
    };
    let output = || HistoryItem {
        id: Some(String::from("output")),
        payload: None,
        body: HistoryBody::FunctionCallOutput {
            call_id: Some(String::from("call")),
            encoded: String::from("/tmp"),
        },
    };
    let rollout = vec![entry(request()), entry(output())];
    let effective = effective_rollout(&rollout);

    assert_eq!(
        materialize_context(
            &vec![ContextItem::SourceSpan { start: 0, end: 1 }],
            &effective,
            None,
            &vec![],
            "node prompt",
        )
        .expect("materialize source span"),
        vec![request(), output()]
    );
}

#[test]
fn multimodal_user_item_is_preserved_while_text_is_anchored() {
    let item = multimodal("multimodal");
    let rollout = vec![entry(multimodal("multimodal"))];
    let effective = effective_rollout(&rollout);
    let projected = materialize_context(
        &vec![ContextItem::Message {
            boundary: message_from_response_item(0, &item, false).boundary,
            user_anchor: Some(1),
        }],
        &effective,
        None,
        &vec![],
        "node prompt",
    )
    .expect("materialize user");

    let HistoryBody::Message { content, .. } = &projected[0].body else {
        panic!("expected message");
    };
    assert!(matches!(content[0], ContentItem::InputImage { .. }));
    assert!(matches!(
        &content[1],
        ContentItem::InputText { text, .. } if text == "[U1]\ninspect image"
    ));
    let RolloutEntry::ResponseItem { item: effective_item, .. } = effective[0].1 else {
        panic!("expected response item");
    };
    assert_eq!(effective_item, &item);
}

#[test]
fn contextual_user_message_does_not_consume_an_anchor() {
    let rollout = vec![
        message("user", "<environment_context>context</environment_context>"),
        message("user", "actual request"),
    ];
    let effective = effective_rollout(&rollout);
    let projected = materialize_context(
        &vec![
            ContextItem::Message { boundary: 0, user_anchor: None },
            ContextItem::Message { boundary: 1, user_anchor: Some(1) },
        ],
        &effective,
        None,
        &vec![],
        "node prompt",
    )
    .expect("materialize contextual user");

    assert_eq!(
        text(&projected[0]),
        "<environment_context>context</environment_context>"
    );
    assert_eq!(text(&projected[1]), "[U1]\nactual request");
}

#[test]
fn compact_replacement_history_is_materialized_exactly_once() {
    let replacement = || HistoryItem {
        id: Some(String::from("replacement")),
        payload: None,
        body: HistoryBody::Message {
            role: String::from("assistant"),
            content: vec![ContentItem::OutputText { text: String::from("native summary") }],
        },
    };
    let rollout = vec![
        message("user", "old"),
        RolloutEntry::Compacted {
            message: String::from("summary"),
            replacement_history: Some(vec![replacement()]),
        },
    ];
    let effective = effective_rollout(&rollout);

    assert_eq!(
        materialize_context(
            &vec![ContextItem::Native {
                source: NativeItemRef::CompactReplacement { compact_boundary: 1, index: 0 },
            }],
            &effective,
            None,
            &vec![],
            "node prompt",
        )
        .expect("materialize compact replacement"),
        vec![replacement()]
    );
}

#[test]
fn closed_memory_user_slot_preserves_the_complete_native_message() {
    let rollout = vec![entry(multimodal("multimodal-memory"))];
    let effective = effective_rollout(&rollout);
    let projected = materialize_context(
        &vec![
            ContextItem::MemorySlot(MemorySlot::User {
                owner_node: String::from("1.1"),
                boundary: 0,
                anchor: 1,
            }),
            ContextItem::MemorySlot(MemorySlot::Summary {
                owner_node: String::from("1.1"),
                body: "image inspected".to_string(),
            }),
        ],
        &effective,
        None,
        &vec![],
        "node prompt",
    )
    .expect("materialize memory");

    let mut expected = multimodal("multimodal-memory");
    SpineUserAnchor::new(1).prepend_to(&mut expected);
    assert_eq!(projected[0], expected);
    assert_eq!(
        text(&projected[1]),
        "<spine_memory node_id=\"1.1\">\nimage inspected\n</spine_memory>"
    );
}

#[test]
fn missing_context_sources_are_reported() {
    let rollout = vec![message("assistant", "answer")];
    let effective = effective_rollout(&rollout);
    let outcome = |item| {
        materialize_context(&vec![item], &effective, None, &vec![], "node prompt")
            .map(|items| items.len())
    };
    assert!(outcome(ContextItem::Message { boundary: 7, user_anchor: None }).is_err());
    assert_eq!(outcome(ContextItem::SourceSpan { start: 0, end: 3 }), Ok(1));
    let native = NativeItemRef::CompactReplacement { compact_boundary: 0, index: 0 };
    assert!(outcome(ContextItem::Native { source: native }).is_err());
    assert!(
        outcome(ContextItem::MemorySlot(MemorySlot::User {
            owner_node: String::from("1"),
            boundary: 0,
            anchor: 1,
        }))
        .is_err()
    );
    assert_eq!(
        outcome(ContextItem::Native { source: NativeItemRef::Rollout { ordinal: 0 } }),
        Ok(1)
    );
}

#[test]
fn synthetic_nodes_and_evidence_are_rendered() {
    let projected = materialize_context(
        &vec![
            ContextItem::SyntheticNode {
                node_id: String::from("1.2"),
                summary: String::from("part"),
                status: NodeStatus::Opened,
            },
            ContextItem::SyntheticNode {
                node_id: String::from("1.3"),
                summary: String::from("rest"),
                status: NodeStatus::Closed,
            },
            ContextItem::MemorySlot(MemorySlot::SpawnEvidence {
                owner_node: String::from("1.2"),
                task: SpawnTask { summary: String::from("look"), prompt: String::from("at it") },
                outcome: SpawnOutcome::Errored,
                diagnostic: Some(String::from("lost")),
                execution_ref: None,
            }),
        ],
        &vec![],
        None,
        &vec![],
        "Guide.",
    )
    .expect("materialize");
    assert_eq!(
        text(&projected[0]),
        "<spine_node id=\"1.2\" summary=\"part\" status=\"opened\">\nGuide.\n</spine_node>"
    );
    assert_eq!(
        text(&projected[1]),
        "<spine_node id=\"1.3\" summary=\"rest\" status=\"closed\"></spine_node>"
    );
    assert!(text(&projected[2]).contains("lost"));
    assert!(text(&projected[2]).contains("errored"));
}

#[test]
fn the_host_history_replaces_what_it_knows() {
    let output = |encoded: &str| HistoryItem {
        id: None,
        payload: None,
        body: HistoryBody::CustomToolCallOutput {
            call_id: String::from("call"),
            encoded: String::from(encoded),
        },
    };
    let history = vec![message_item("user", "other"), output("short")];
    assert!(same_projected_identity(&output("a"), &output("b")));
    assert!(!same_projected_identity(&output("a"), &message_item("user", "a")));
    assert_eq!(canonical_projected_item(&history, &output("long")), output("short"));
    let unknown = message_item("user", "unknown");
    assert_eq!(
        canonical_projected_item(&history, &unknown),
        message_item("user", "unknown")
    );
}

#[test]
fn items_become_characters_of_the_source() {
    let (character, source) =
        response_item_to_char_and_source(&message_item("user", "hello"), false, 4);
    let SpineChar::Message(message) = character else {
        panic!("expected a message");
    };
    assert_eq!(message.boundary, 4);
    assert_eq!(message.role, MessageRole::User);
    assert_eq!(message.content, "hello");
    assert_eq!(source, message_item("user", "hello"));

    let contextual = message_from_response_item(0, &message_item("user", "context"), true);
    assert_eq!(contextual.role, MessageRole::ContextualUser);
    let developer = message_from_response_item(0, &message_item("developer", "rules"), false);
    assert_eq!(developer.role, MessageRole::Developer);

    let call = HistoryItem {
        id: None,
        payload: None,
        body: HistoryBody::Other { encoded: String::from("{}") },
    };
    let (character, _) = response_item_to_char_and_source(&call, false, 5);
    assert_eq!(character, SpineChar::Opaque { boundary: 5 });
    assert_eq!(
        text(&text_message(MessageRole::User, String::from("hi"))),
        "hi"
    );
}

#[test]
fn a_rollback_of_every_turn_leaves_what_came_before_them() {
    let rollout = vec![
        message("developer", "<rules>base</rules>"),
        message("user", "first"),
        message("assistant", "answer"),
        RolloutEntry::ThreadRolledBack { num_turns: 9 },
        message("user", "again"),
    ];
    let effective = effective_rollout(&rollout);
    let ordinals: Vec<usize> = effective.iter().map(|(ordinal, _)| *ordinal).collect();
    assert_eq!(ordinals, vec![0, 3]);
    assert!(is_spine_source_item(&rollout[0]));
    assert!(!is_spine_source_item(&rollout[3]));
}

#[test]
fn an_open_sampling_attempt_is_cut_off_at_its_start() {
    let mut items = vec![message("user", "one"), started(), message("assistant", "half")];
    assert!(truncate_to_current_sampling_start(&mut items));
    assert_eq!(items, vec![message("user", "one"), started()]);
    let mut settled = vec![message("user", "one"), started(), transition()];
    assert!(!truncate_to_current_sampling_start(&mut settled));
    assert_eq!(settled.len(), 3);
}

fn encoded(item: &HistoryItem) -> Value {
    let text = |value: &str| Value::String(String::from(value));
    let mut fields = serde_json::Map::new();
    match &item.body {
        HistoryBody::Message { role, content } => {
            fields.insert(String::from("type"), text("message"));
            fields.insert(String::from("role"), text(role));
            let parts = content
                .iter()
                .map(|part| {
                    let (kind, key, value) = match part {
                        ContentItem::InputText { text, .. } => ("input_text", "text", text),
                        ContentItem::OutputText { text } => ("output_text", "text", text),
                        ContentItem::InputImage { image_url } => {
                            ("input_image", "image_url", image_url)
                        }
                        ContentItem::InputAudio { audio_url } => {
                            ("input_audio", "audio_url", audio_url)
                        }
                    };
                    let mut part = serde_json::Map::new();
                    part.insert(String::from("type"), text(kind));
                    part.insert(String::from(key), text(value));
                    Value::Object(part)
                })
                .collect();
            fields.insert(String::from("content"), Value::Array(parts));
        }
        HistoryBody::FunctionCallOutput { encoded, .. }
        | HistoryBody::CustomToolCallOutput { encoded, .. }
        | HistoryBody::Other { encoded } => {
            fields.insert(String::from("encoded"), text(encoded));
        }
        HistoryBody::Reasoning { .. } => {}
    }
    Value::Object(fields)
}

fn wire_bytes(item: &HistoryItem) -> usize {
    let encoded = serde_json::to_string(&encoded(item)).expect("encode");
    spine_model_item_wire_bytes(encoded.len())
}

fn shortened(item: &HistoryItem, budget: usize) -> HistoryItem {
    let HistoryBody::FunctionCallOutput { call_id, encoded } = &item.body else {
        panic!("expected a tool output");
    };
    HistoryItem {
        id: None,
        payload: None,
        body: HistoryBody::FunctionCallOutput {
            call_id: call_id.clone(),
            encoded: encoded.chars().take(budget * 4).collect(),
        },
    }
}

fn plan(item: HistoryItem, labels: Vec<u64>, spine_owned: bool) -> Result<Vec<PlannedItem>, String> {
    let mut planner = ContextPlanner::new();
    let mut action = planner.open_cell(item, labels, spine_owned);
    loop {
        action = match action {
            PlanAction::Measure(item) => planner.measured(Ok(wire_bytes(&item))),
            PlanAction::Shorten { item, budget } => {
                let candidate = shortened(&item, budget);
                let size = wire_bytes(&candidate);
                planner.shortened(candidate, Ok(size))
            }
            PlanAction::Done => return Ok(planner.finish().0),
            PlanAction::Fail(error) => return Err(error),
        };
    }
}

#[test]
fn canonical_context_preserves_oversized_base_item() {
    let item = || message_item("user", &"x".repeat(50_000));
    let prepared = plan(item(), vec![], false)
        .expect("Base-owned source items are not rewritten by the Spine gate");

    assert_eq!(prepared[0].item, item());
    assert!(wire_bytes(&prepared[0].item) > MAX_SPINE_MODEL_ITEM_WIRE_BYTES);
}

#[test]
fn user_anchor_is_a_separate_bounded_item_before_an_unchanged_base_source() {
    let source_item = || message_item("user", &"x".repeat(MAX_SPINE_MODEL_ITEM_WIRE_BYTES));
    let prepared = plan(source_item(), vec![42], false)
        .expect("the bounded anchor must not claim or rewrite the Base source item");

    assert_eq!(prepared.len(), 2);
    let HistoryBody::Message { content, .. } = &prepared[0].item.body else {
        panic!("anchor must be a user message");
    };
    assert_eq!(
        content,
        &[ContentItem::InputText {
            text: "[U42]\n".to_string(),
            kind: Some(ContentItemKind::UserAnchor),
        }]
    );
    assert!(wire_bytes(&prepared[0].item) <= MAX_SPINE_MODEL_ITEM_WIRE_BYTES);
    assert_eq!(prepared[1].item, source_item());
    assert!(wire_bytes(&prepared[1].item) > MAX_SPINE_MODEL_ITEM_WIRE_BYTES);
}

#[test]
fn canonical_context_preserves_oversized_native_tool_output() {
    let item = || HistoryItem {
        id: None,
        payload: None,
        body: HistoryBody::FunctionCallOutput {
            call_id: Some("large-output".to_string()),
            encoded: "x".repeat(50_000),
        },
    };
    let prepared =
        plan(item(), vec![], false).expect("native tool output must remain Base-owned source");

    assert_eq!(prepared.len(), 1);
    assert_eq!(prepared[0].item, item());
    assert!(wire_bytes(&prepared[0].item) > MAX_SPINE_MODEL_ITEM_WIRE_BYTES);
}

#[test]
fn an_owned_tool_output_is_shortened_until_it_fits() {
    let item = HistoryItem {
        id: None,
        payload: None,
        body: HistoryBody::FunctionCallOutput {
            call_id: Some(String::from("call")),
            encoded: "x".repeat(50_000),
        },
    };
    let prepared = plan(item, vec![], true).expect("a shortened output fits");
    let size = wire_bytes(&prepared[0].item);
    assert_eq!(prepared[0].wire_bytes, Some(size));
    assert!(size <= MAX_SPINE_MODEL_ITEM_WIRE_BYTES);
    assert!(size + 4 > MAX_SPINE_MODEL_ITEM_WIRE_BYTES);
}

#[test]
fn an_owned_message_that_does_not_fit_is_refused() {
    let item = message_item("user", &"x".repeat(MAX_SPINE_MODEL_ITEM_WIRE_BYTES));
    let bytes = wire_bytes(&item);
    assert_eq!(
        plan(item, vec![], true).map(|items| items.len()),
        Err(format!(
            "Spine-owned model item is {bytes} serialized bytes; maximum is 9000"
        ))
    );
}

#[test]
fn anchors_are_put_before_the_text_where_they_fit() {
    let mut planner = ContextPlanner::new();
    let mut action = planner.open_cell(message_item("user", "hello"), vec![3, 4], false);
    while let PlanAction::Measure(item) = action {
        action = planner.measured(Ok(wire_bytes(&item)));
    }
    assert_eq!(action, PlanAction::Done);
    let (items, user_messages) = planner.finish();
    assert_eq!(items.len(), 1);
    assert_eq!(text(&items[0].item), "[U4]\n[U3]\nhello");
    assert_eq!(user_messages[0].anchor, 3);
    assert_eq!(user_messages[0].body, "hello");
    assert_eq!(user_messages[1].body, "[U3]\nhello");
}

#[test]
fn a_size_that_is_not_known_fails_the_plan() {
    let mut planner = ContextPlanner::new();
    let action = planner.open_cell(message_item("user", "hello"), vec![], true);
    assert_eq!(action, PlanAction::Measure(message_item("user", "hello")));
    assert_eq!(
        planner.measured(Err(String::from("no encoding"))),
        PlanAction::Fail(String::from("no encoding"))
    );
    assert_eq!(projected_item_wire_bytes(Ok(10)).map(|bytes| bytes > 10), Ok(true));
    assert_eq!(
        projected_item_wire_bytes(Err(String::from("no encoding"))),
        Err(String::from("failed to serialize Spine provider input item: no encoding"))
    );
}

#[test]
fn a_cell_without_its_source_item_is_refused() {
    let missing = CellOrigin::Source { identity: String::from("cell-1"), found: None };
    assert_eq!(
        cell_item(missing, &vec![], ""),
        Err(String::from("missing Codex source item for stable identity cell-1"))
    );
    let projection = CellOrigin::Projection(ContextItem::SyntheticNode {
        node_id: String::from("1"),
        summary: String::from("s"),
        status: NodeStatus::Live,
    });
    let item = cell_item(projection, &vec![], "").expect("rendered");
    assert_eq!(
        text(&item),
        "<spine_node id=\"1\" summary=\"s\" status=\"live\">\n</spine_node>"
    );
    let nothing = CellOrigin::Projection(ContextItem::SourceSpan { start: 1, end: 0 });
    assert!(cell_item(nothing, &vec![], "").is_err());
}

#[test]
fn made_content_has_its_kind_and_other_content_keeps_its_own() {
    let summary = ContextItem::MemorySlot(MemorySlot::Summary {
        owner_node: String::from("1.2"),
        body: String::from("remember"),
    });
    let items = materialize_context(&vec![summary], &vec![], None, &vec![], "")
        .expect("a memory is rendered");
    let HistoryBody::Message { content, .. } = &items[0].body else {
        panic!("expected a message");
    };
    assert!(matches!(
        &content[0],
        ContentItem::InputText { kind: Some(ContentItemKind::Memory), .. }
    ));

    let mut said = message_item("user", "hi");
    SpineUserAnchor::new(3).prepend_to(&mut said);
    assert_eq!(said, message_item("user", "[U3]\nhi"));

    let image = || ContentItem::InputImage { image_url: String::from("data:") };
    let mut shown = HistoryItem {
        id: None,
        payload: Some(7),
        body: HistoryBody::Message { role: String::from("user"), content: vec![image()] },
    };
    SpineUserAnchor::new(4).prepend_to(&mut shown);
    let anchor = ContentItem::InputText {
        text: String::from("[U4]\n"),
        kind: Some(ContentItemKind::UserAnchor),
    };
    assert_eq!(
        shown.body,
        HistoryBody::Message { role: String::from("user"), content: vec![anchor, image()] }
    );
}

use spine_host::fragments::{
    validate_spine_model_item, spine_model_item_wire_bytes, ContentItemKind, FragmentRole, NodeContextCost,
    NodeStatus, SpineMemoryFragment, SpineMultiAgentModeInstructions, SpineNodeFragment,
    SpineSpawnEvidenceFragment, SpineUserAnchor, SpawnOutcome, escape_xml_attribute,
    MAX_SPINE_FRAGMENT_BYTES, MAX_SPINE_MODEL_ITEM_WIRE_BYTES,
};

fn encoded_user_message(text: &str) -> String {
    format!(
        "{{\"type\":\"message\",\"role\":\"user\",\"content\":[{{\"type\":\"input_text\",\"text\":{}}}]}}",
        serde_json::to_string(text).unwrap()
    )
}

fn wire_bytes(text: &str) -> usize {
    spine_model_item_wire_bytes(encoded_user_message(text).len())
}

#[test]
fn typed_fragments_own_exact_rendering() {
    let node = SpineNodeFragment::new(
        "1.1",
        "child <scope>",
        NodeStatus::Live,
        NodeContextCost::Percentage(13),
        "Node guidance.",
    )
    .unwrap_or_else(|error| panic!("{error}"));
    let memory = SpineMemoryFragment::new("1", "finished").unwrap_or_else(|error| panic!("{error}"));
    let opened = SpineNodeFragment::new(
        "1.1",
        "child <scope>",
        NodeStatus::Opened,
        NodeContextCost::Unavailable,
        "Node guidance.",
    )
    .unwrap_or_else(|error| panic!("{error}"));

    assert_eq!(
        node.render(),
        "<spine_node id=\"1.1\" summary=\"child &lt;scope&gt;\" status=\"live\">\nNode guidance.\n</spine_node>"
    );
    assert_eq!(
        memory.render(),
        "<spine_memory node_id=\"1\">\nfinished\n</spine_memory>"
    );
    assert_eq!(
        opened.render(),
        "<spine_node id=\"1.1\" summary=\"child &lt;scope&gt;\" status=\"opened\">\nNode guidance.\n</spine_node>"
    );
    assert_eq!(node.role(), FragmentRole::Developer);
    assert_eq!(memory.role().name(), "user");
}

#[test]
fn typed_node_fragment_is_stable_across_token_accounting_updates() {
    let before = SpineNodeFragment::new(
        "1.1",
        "active",
        NodeStatus::Opened,
        NodeContextCost::Percentage(10),
        "",
    )
    .unwrap_or_else(|error| panic!("{error}"));
    let after = SpineNodeFragment::new(
        "1.1",
        "active",
        NodeStatus::Opened,
        NodeContextCost::Percentage(90),
        "",
    )
    .unwrap_or_else(|error| panic!("{error}"));

    assert_eq!(before.render(), after.render());
    assert_eq!(
        before.render(),
        "<spine_node id=\"1.1\" summary=\"active\" status=\"opened\">\n</spine_node>"
    );
}

#[test]
fn closed_nodes_carry_no_prompt() {
    let closed = SpineNodeFragment::new(
        "2",
        "a & \"b\"",
        NodeStatus::Closed,
        NodeContextCost::Unavailable,
        "Node guidance.",
    )
    .unwrap_or_else(|error| panic!("{error}"));
    assert_eq!(
        closed.render(),
        "<spine_node id=\"2\" summary=\"a &amp; &quot;b&quot;\" status=\"closed\"></spine_node>"
    );
}

#[test]
fn final_rendered_fragment_has_a_hard_byte_limit() {
    let accepted = SpineMemoryFragment::new("1", &"x".repeat(MAX_SPINE_FRAGMENT_BYTES - 64))
        .unwrap_or_else(|error| panic!("{error}"));
    let result = SpineMemoryFragment::new("1", &"x".repeat(MAX_SPINE_FRAGMENT_BYTES));

    assert!(accepted.render().len() <= MAX_SPINE_FRAGMENT_BYTES);
    assert!(result.is_err());
}

#[test]
fn an_oversized_fragment_says_its_size() {
    let result = SpineMemoryFragment::new("1", &"x".repeat(MAX_SPINE_FRAGMENT_BYTES));
    let message = match result {
        Ok(_) => panic!("the fragment is over the limit"),
        Err(message) => message,
    };
    assert_eq!(
        message,
        "Spine memory fragment is 8043 bytes; maximum is 8000"
    );
}

#[test]
fn user_anchor_is_a_typed_fragment_with_exact_legacy_rendering() {
    let anchor = SpineUserAnchor::new(u64::MAX);

    assert_eq!(anchor.role().name(), "user");
    assert_eq!(anchor.render(), format!("[U{}]\n", u64::MAX));
    assert!(SpineUserAnchor::matches_text(&anchor.render()));
    assert!(SpineUserAnchor::matches_text("  [U+7]\t"));
    assert!(!SpineUserAnchor::matches_text("[U]"));
    assert!(!SpineUserAnchor::matches_text("[U12x]"));
    assert!(!SpineUserAnchor::matches_text("[U18446744073709551616]"));
}

#[test]
fn complete_model_item_gate_counts_unicode_and_json_escaping() {
    let unicode = "🦀".repeat(1_900);
    let escaped = "\0".repeat(1_900);

    assert!(wire_bytes(&unicode) < MAX_SPINE_MODEL_ITEM_WIRE_BYTES);
    assert!(validate_spine_model_item(wire_bytes(&unicode)).is_ok());
    assert!(wire_bytes(&escaped) > MAX_SPINE_MODEL_ITEM_WIRE_BYTES);
    assert!(validate_spine_model_item(wire_bytes(&escaped)).is_err());
}

#[test]
fn complete_model_item_gate_has_exact_just_under_and_over_boundaries() {
    let fixed = wire_bytes("");
    let text = MAX_SPINE_MODEL_ITEM_WIRE_BYTES - fixed;
    let accepted = wire_bytes(&"x".repeat(text));
    assert_eq!(accepted, MAX_SPINE_MODEL_ITEM_WIRE_BYTES);
    assert!(validate_spine_model_item(accepted).is_ok());

    let rejected = wire_bytes(&"x".repeat(text + 1));
    assert_eq!(
        validate_spine_model_item(rejected),
        Err("Spine model provider value is 9001 bytes; maximum is 9000".to_string())
    );
}

#[test]
fn the_wire_value_frames_the_item_as_the_provider_input() {
    let item = encoded_user_message("hello");
    let value: serde_json::Value = serde_json::from_str(&item).unwrap();
    let mut object = serde_json::Map::new();
    object.insert("input".to_string(), serde_json::Value::Array(vec![value]));
    let framed = serde_json::to_vec(&serde_json::Value::Object(object)).unwrap();
    assert_eq!(spine_model_item_wire_bytes(item.len()), framed.len());
}

#[test]
fn spawn_evidence_is_pretty_json_inside_its_fragment() {
    let fragment = SpineSpawnEvidenceFragment::new(
        "1.2",
        "scope",
        "do it",
        SpawnOutcome::Errored,
        Some("child errored: boom"),
        None,
    )
    .unwrap_or_else(|error| panic!("{error}"));
    let rendered = fragment.render();
    let body = rendered
        .strip_prefix("<spine_spawn_evidence node_id=\"1.2\">\n")
        .and_then(|rest| rest.strip_suffix("\n</spine_spawn_evidence>"))
        .unwrap_or_else(|| panic!("unexpected framing: {rendered}"));
    let value: serde_json::Value = serde_json::from_str(body).unwrap();
    assert_eq!(value["summary"], "scope");
    assert_eq!(value["prompt"], "do it");
    assert_eq!(value["outcome"], "errored");
    assert_eq!(value["diagnostic"], "child errored: boom");
    assert_eq!(value["execution_ref"], serde_json::Value::Null);
    assert_eq!(body, serde_json::to_string_pretty(&value).unwrap());
}

#[test]
fn a_failed_evidence_rendering_is_reported() {
    let result = SpineSpawnEvidenceFragment::from_evidence("1", Err("boom".to_string()));
    let message = match result {
        Ok(_) => panic!("the rendering failed"),
        Err(message) => message,
    };
    assert_eq!(message, "failed to render Spine spawn evidence: boom");
}

#[test]
fn attributes_are_escaped() {
    assert_eq!(
        escape_xml_attribute("<a href=\"x\">&amp;</a>"),
        "&lt;a href=&quot;x&quot;&gt;&amp;amp;&lt;/a&gt;"
    );
}

#[test]
fn multi_agent_instructions_keep_the_prompt() {
    let instructions = SpineMultiAgentModeInstructions::new("be kind");
    assert_eq!(instructions.body(), "be kind");
    assert_eq!(instructions.role(), FragmentRole::Developer);
}

#[test]
fn fragments_say_what_kind_of_content_they_are() {
    let evidence =
        SpineSpawnEvidenceFragment::new("1", "s", "p", SpawnOutcome::Completed, None, None)
            .unwrap_or_else(|error| panic!("{error}"));
    assert_eq!(evidence.content_kind().name(), "spine.SpineSpawnEvidenceFragment");
    assert_eq!(
        SpineMultiAgentModeInstructions::new("be kind").content_kind().name(),
        "multi_agent.mode_instructions"
    );
    assert_eq!(ContentItemKind::Node.name(), "spine.SpineNodeFragment");
    assert_eq!(ContentItemKind::Memory.name(), "spine.SpineMemoryFragment");
    assert_eq!(ContentItemKind::UserAnchor.name(), "spine.user_anchor");
}

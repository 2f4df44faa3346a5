use spine_host::debug_record::{
    DebugCollectionShape, DebugJsonValueShape, DebugMessageRole, DebugObjectState,
    DebugOutputBodyShape, DebugPlaceholderScope, DebugResponseItem, DebugRolloutRecord,
    DebugSchemaShape, DebugSpawnOutcomeShape, DebugStringShape, DebugToolArguments, DebugToolKind,
    DebugToolOutput, DebugUnsignedShape,
};
use spine_host::json::Json;
use spine_host::redactor::{RolloutDebugRedactor, RolloutDebugRedactorError, SpineCarriers};
use spine_host::rollout::{
    ContentKind, EventMsg, JsonScan, OutputBody, ResponseItem, RolloutItem, ToolOutput, ToolText,
    TokenUsage, TokenUsageInfo,
};
use spine_host::spawn::SpawnTask;
use spine_host::spawn_tasks::{requested_tasks, RequestValidation};
use spine_host::shapes::{classify_tool, string_shape, unsigned_shape};
use spine_host::text::{byte_size, decimal, is_blank, parse_number, same_text, trim};
use spine_host::text_map::TextMap;
use spine_host::text_order::{comes_before, insert_all_in_order, insert_in_order};

fn carriers() -> SpineCarriers {
    SpineCarriers {
        open: String::from("opened"),
        close: String::from("closed"),
        next: String::from("moved"),
        receipt_schema: String::from("receipt.v1"),
        child_input_bytes: 80,
    }
}

fn scan(nodes: usize) -> JsonScan {
    JsonScan { nodes, well_formed: true }
}

fn requested(summaries: &[&str]) -> Result<RequestValidation, String> {
    Ok(RequestValidation::Spawn(
        summaries
            .iter()
            .map(|summary| SpawnTask {
                summary: String::from(*summary),
                prompt: String::from("p"),
            })
            .collect(),
    ))
}

fn arguments(text: &str, spawn_tasks: Option<usize>) -> ToolText {
    let request = match spawn_tasks {
        Some(count) => requested(&["s", "t", "u"][..count]),
        None => Err(String::from("not a spawn request")),
    };
    ToolText { text: String::from(text), scan: scan(3), request }
}

fn call(name: &str, call_id: &str, text: &str, spawn_tasks: Option<usize>) -> ResponseItem {
    ResponseItem::FunctionCall {
        id: None,
        name: String::from(name),
        namespace: Some(String::from("spine")),
        code_mode: false,
        arguments: arguments(text, spawn_tasks),
        call_id: String::from(call_id),
        turn_id: None,
    }
}

fn output(call_id: &str, text: &str, receipt_sizes: Vec<usize>) -> ResponseItem {
    ResponseItem::FunctionCallOutput {
        id: None,
        call_id: Some(String::from(call_id)),
        output: ToolOutput {
            body: OutputBody::Text(String::from(text)),
            scan: scan(9),
            receipt_sizes,
        },
        turn_id: None,
    }
}

fn message(id: &str, turn_id: &str) -> ResponseItem {
    ResponseItem::Message {
        id: Some(String::from(id)),
        role: String::from("user"),
        content: vec![ContentKind::InputText],
        phase: None,
        turn_id: Some(String::from(turn_id)),
    }
}

#[test]
fn identifiers_are_numbered_by_namespace() {
    let mut redactor = RolloutDebugRedactor::new(carriers());
    let mut numbers = Vec::new();
    for (id, turn) in [("a", "a"), ("b", "a"), ("a", "b")] {
        match redactor.redact_response_item(&message(id, turn), None) {
            DebugResponseItem::Message { id, role, turn_id, .. } => {
                assert_eq!(role, DebugMessageRole::User);
                numbers.push((id, turn_id));
            }
            other => panic!("expected a message, got {other:?}"),
        }
    }
    assert_eq!(
        numbers,
        vec![(Some(0), Some(0)), (Some(1), Some(0)), (Some(0), Some(1))]
    );
    assert_eq!(redactor.register_thread_id("a"), Ok(0));
    assert_eq!(redactor.register_thread_id("b"), Ok(1));
    assert_eq!(redactor.register_thread_id("a"), Ok(0));
}

#[test]
fn identifiers_are_limited_in_number_and_bytes() {
    let mut few = RolloutDebugRedactor::with_limits(100, 1, 10, carriers());
    assert_eq!(few.register_thread_id("first"), Ok(0));
    assert_eq!(
        few.register_thread_id("second"),
        Err(RolloutDebugRedactorError::ResourceLimitExceeded)
    );
    assert_eq!(
        few.ensure_within_limits(),
        Err(RolloutDebugRedactorError::ResourceLimitExceeded)
    );
    let mut short = RolloutDebugRedactor::with_limits(4, 10, 10, carriers());
    assert_eq!(short.register_thread_id("ßß"), Ok(0));
    assert!(short.register_thread_id("x").is_err());
}

#[test]
fn a_call_that_is_outstanding_cannot_be_repeated() {
    let mut redactor = RolloutDebugRedactor::new(carriers());
    let open = call("open", "call", "{\"summary\":\"s\"}", None);
    redactor.redact_response_item(&open, None);
    assert_eq!(redactor.ensure_within_limits(), Ok(()));
    redactor.redact_response_item(&output("call", "opened", vec![]), None);
    redactor.redact_response_item(&open, None);
    assert_eq!(redactor.ensure_within_limits(), Ok(()));
    redactor.redact_response_item(&open, None);
    let error = redactor.ensure_within_limits().unwrap_err();
    assert_eq!(error, RolloutDebugRedactorError::AmbiguousCallId);
    assert_eq!(
        error.message(),
        "rollout debug call identifier is ambiguous while still outstanding"
    );
}

#[test]
fn pending_calls_are_limited() {
    let mut redactor = RolloutDebugRedactor::with_limits(100, 10, 1, carriers());
    redactor.redact_response_item(&call("open", "one", "{}", None), None);
    redactor.redact_response_item(&call("open", "two", "{}", None), None);
    assert_eq!(
        redactor.ensure_within_limits().unwrap_err().message(),
        "rollout debug redactor state limit exceeded"
    );
}

#[test]
fn control_arguments_keep_only_their_shape() {
    let mut redactor = RolloutDebugRedactor::new(carriers());
    let mut arguments_of = |name: &str, call_id: &str, text: &str| {
        match redactor.redact_response_item(&call(name, call_id, text, None), None) {
            DebugResponseItem::FunctionCall { arguments, .. } => arguments,
            other => panic!("expected a call, got {other:?}"),
        }
    };
    assert_eq!(
        arguments_of("open", "1", "{\"summary\":\"secret\"}"),
        DebugToolArguments::Open {
            object: DebugObjectState::Object,
            summary: DebugStringShape::NonEmpty,
            unknown_fields: false,
            valid: true,
        }
    );
    assert_eq!(
        arguments_of("close", "2", "{\"memory\":\" \",\"more\":1}"),
        DebugToolArguments::Close {
            object: DebugObjectState::Object,
            memory: DebugStringShape::Whitespace,
            unknown_fields: true,
            valid: false,
        }
    );
    assert_eq!(
        arguments_of("next", "3", "[]"),
        DebugToolArguments::Next {
            object: DebugObjectState::NonObject,
            summary: DebugStringShape::Missing,
            memory: DebugStringShape::Missing,
            unknown_fields: false,
            valid: false,
        }
    );
    assert_eq!(
        arguments_of("other", "4", "{\"a\":1,\"b\":2}"),
        DebugToolArguments::Redacted { shape: DebugJsonValueShape::Object(2) }
    );
}

#[test]
fn control_answers_are_compared_with_their_carriers() {
    let mut redactor = RolloutDebugRedactor::new(carriers());
    for (name, answer, exact) in [
        ("open", "opened", true),
        ("close", "closed", true),
        ("next", "opened", false),
    ] {
        redactor.redact_response_item(&call(name, name, "{}", None), None);
        match redactor.redact_response_item(&output(name, answer, vec![]), None) {
            DebugResponseItem::FunctionCallOutput { output, .. } => assert_eq!(
                output,
                DebugToolOutput::Control {
                    exact_success_carrier: exact,
                    body: DebugOutputBodyShape::Text { bytes: answer.len() },
                }
            ),
            other => panic!("expected an output, got {other:?}"),
        }
    }
}

#[test]
fn only_the_first_output_of_a_control_call_counts() {
    let mut redactor = RolloutDebugRedactor::new(carriers());
    let mut kept = |item: ResponseItem| match redactor.redact_response_item(&item, None) {
        DebugResponseItem::FunctionCallOutput { output, .. } => output,
        other => panic!("expected an output, got {other:?}"),
    };
    let body = DebugOutputBodyShape::Text { bytes: 6 };
    assert_eq!(kept(output("c", "opened", vec![])), DebugToolOutput::Redacted { body });
    let mut redactor = RolloutDebugRedactor::new(carriers());
    redactor.redact_response_item(&call("open", "c", "{}", None), None);
    redactor.redact_response_item(&call("close", "d", "{}", None), None);
    redactor.redact_response_item(&message("m", "t"), None);
    let mut kept = |item: ResponseItem| match redactor.redact_response_item(&item, None) {
        DebugResponseItem::FunctionCallOutput { output, .. } => output,
        other => panic!("expected an output, got {other:?}"),
    };
    let body = || DebugOutputBodyShape::Text { bytes: 6 };
    assert_eq!(
        kept(output("c", "opened", vec![])),
        DebugToolOutput::Control { exact_success_carrier: true, body: body() }
    );
    assert_eq!(kept(output("c", "opened", vec![])), DebugToolOutput::Redacted { body: body() });
    assert_eq!(
        kept(output("d", "opened", vec![])),
        DebugToolOutput::Control { exact_success_carrier: false, body: body() }
    );
}

#[test]
fn message_texts_leave_no_trace() {
    let run = |first: &str, second: &str| -> Vec<DebugRolloutRecord> {
        let mut redactor = RolloutDebugRedactor::new(carriers());
        [first, second]
            .iter()
            .map(|words| {
                let line = format!(
                    "{{\"type\":\"response_item\",\"payload\":{{\"type\":\"message\",\"role\":\"user\",\"content\":[{{\"type\":\"input_text\",\"text\":\"{words}\"}}]}}}}"
                );
                let decoded = Some(RolloutItem::ResponseItem(message("m", "t")));
                redactor
                    .redact_json_line_to_value(line.as_bytes(), scan(16), &decoded)
                    .expect("within limits")
            })
            .collect()
    };
    assert_eq!(run("private", "prompt"), run("", "other words"));
}

#[test]
fn a_spawn_receipt_is_held_against_its_request() {
    let mut redactor = RolloutDebugRedactor::new(carriers());
    let request = "{\"tasks\":[{\"summary\":\"s\",\"prompt\":\"p\"}]}";
    match redactor.redact_response_item(&call("spawn", "c", request, Some(1)), None) {
        DebugResponseItem::FunctionCall {
            tool,
            arguments: DebugToolArguments::Spawn { tasks, valid, .. },
            ..
        } => {
            assert_eq!(tool, DebugToolKind::SpineSpawn);
            assert!(valid);
            assert_eq!(tasks.shape, DebugCollectionShape::Array);
            assert_eq!(tasks.items.len(), 1);
            assert_eq!(tasks.items[0].prompt, DebugStringShape::NonEmpty);
        }
        other => panic!("expected a spawn call, got {other:?}"),
    }
    let receipt = "{\"schema\":\"receipt.v1\",\"results\":[{\"ordinal\":0,\
        \"outcome\":\"completed\",\"memory_body\":\"m\",\"execution_ref\":\"e\"}]}";
    let mut text = String::from("{\"output\":");
    text.push_str(&format!("{receipt:?}"));
    text.push('}');
    let raw = Json::parse(text.as_bytes());
    match redactor.redact_response_item(&output("c", receipt, vec![1]), raw.as_ref()) {
        DebugResponseItem::FunctionCallOutput {
            output: DebugToolOutput::Spawn { receipt }, ..
        } => {
            assert!(receipt.valid_for_request);
            assert_eq!(receipt.schema, DebugSchemaShape::ExactV1);
            let result = &receipt.results.items[0];
            assert_eq!(result.ordinal, DebugUnsignedShape::Unsigned(0));
            assert_eq!(result.outcome, DebugSpawnOutcomeShape::Completed);
            assert_eq!(result.execution_ref.local_id, Some(0));
            assert_eq!(result.diagnostic, DebugStringShape::Missing);
        }
        other => panic!("expected a receipt, got {other:?}"),
    }
    match redactor.redact_response_item(&output("c", receipt, vec![1]), raw.as_ref()) {
        DebugResponseItem::FunctionCallOutput { output, .. } => {
            assert!(matches!(output, DebugToolOutput::Redacted { .. }));
        }
        other => panic!("expected an output, got {other:?}"),
    }
}

#[test]
fn a_spawn_request_is_valid_where_its_tasks_are_acceptable() {
    let valid = |request: Result<RequestValidation, String>| {
        let mut redactor = RolloutDebugRedactor::new(carriers());
        let call = ResponseItem::FunctionCall {
            id: None,
            name: String::from("spine.spawn"),
            namespace: None,
            code_mode: false,
            arguments: ToolText { text: String::from("{}"), scan: scan(1), request },
            call_id: String::from("c"),
            turn_id: None,
        };
        match redactor.redact_response_item(&call, None) {
            DebugResponseItem::FunctionCall {
                arguments: DebugToolArguments::Spawn { valid, .. },
                ..
            } => valid,
            other => panic!("expected a spawn call, got {other:?}"),
        }
    };
    assert!(valid(requested(&["s", "t"])));
    assert!(!valid(requested(&["s", " s "])));
    assert!(!valid(requested(&["s", &"x".repeat(10_000)])));
    assert!(!valid(Ok(RequestValidation::Other)));
    assert!(!valid(Err(String::from("refused"))));
    assert_eq!(requested_tasks(&requested(&["s", "t"]), 80), Some(2));
    assert_eq!(requested_tasks(&requested(&["s", "s"]), 80), None);
}

#[test]
fn lines_are_sorted_by_what_is_known_of_them() {
    let mut redactor = RolloutDebugRedactor::new(carriers());
    let mut redact = |line: &str, decoded: Option<RolloutItem>| {
        redactor
            .redact_json_line_to_value(line.as_bytes(), scan(2), &decoded)
            .expect("within limits")
    };
    assert_eq!(
        redact("not json", None),
        DebugRolloutRecord::MalformedRedacted { scope: DebugPlaceholderScope::Line }
    );
    assert_eq!(
        redact("[]", None),
        DebugRolloutRecord::MalformedRedacted { scope: DebugPlaceholderScope::TopLevel }
    );
    assert_eq!(
        redact("{\"type\":\"novel\"}", None),
        DebugRolloutRecord::UnknownRedacted { scope: DebugPlaceholderScope::TopLevel }
    );
    assert_eq!(
        redact("{\"type\":\"response_item\",\"payload\":{\"type\":\"novel\"}}", None),
        DebugRolloutRecord::UnknownRedacted { scope: DebugPlaceholderScope::ResponseItem }
    );
    assert_eq!(
        redact("{\"type\":\"event_msg\",\"payload\":{\"type\":\"novel\"}}", None),
        DebugRolloutRecord::UnknownRedacted { scope: DebugPlaceholderScope::Event }
    );
    assert_eq!(
        redact("{\"type\":\"event_msg\",\"payload\":{\"type\":\"token_count\"}}", None),
        DebugRolloutRecord::MalformedRedacted { scope: DebugPlaceholderScope::Event }
    );
    let usage = TokenUsage {
        input_tokens: 5,
        cached_input_tokens: 1,
        output_tokens: 2,
        reasoning_output_tokens: 0,
        total_tokens: 7,
    };
    let counted = RolloutItem::EventMsg(EventMsg::TokenCount {
        info: Some(TokenUsageInfo {
            total_token_usage: usage,
            last_token_usage: usage,
            model_context_window: Some(100),
        }),
    });
    match redact(
        "{\"type\":\"event_msg\",\"payload\":{\"type\":\"token_count\"}}",
        Some(counted),
    ) {
        DebugRolloutRecord::Event { event } => {
            assert_eq!(event.kind, "token_count");
            assert_eq!(event.token_usage.map(|info| info.last.total_tokens), Some(7));
        }
        other => panic!("expected an event, got {other:?}"),
    }
    assert_eq!(
        RolloutDebugRedactor::oversized_value(),
        DebugRolloutRecord::OversizedRedacted
    );
}

#[test]
fn json_nodes_are_limited_by_record_and_package() {
    let mut record = RolloutDebugRedactor::with_json_node_limits(4, 100, carriers());
    assert!(record.redact_json_line_to_value(b"{}", scan(4), &None).is_ok());
    assert!(record.redact_json_line_to_value(b"{}", scan(4), &None).is_ok());
    assert_eq!(
        record.redact_json_line_to_value(b"{}", scan(5), &None),
        Err(RolloutDebugRedactorError::ResourceLimitExceeded)
    );
    let mut package = RolloutDebugRedactor::with_json_node_limits(4, 6, carriers());
    assert!(package.redact_json_line_to_value(b"{}", scan(4), &None).is_ok());
    assert!(package.redact_json_line_to_value(b"{}", scan(3), &None).is_err());
    assert_eq!(
        package.redact_json_line_to_value(b"{}", scan(1), &None),
        Err(RolloutDebugRedactorError::ResourceLimitExceeded)
    );
}

#[test]
fn tools_are_classified_by_namespace_and_name() {
    let spine = Some(String::from("spine"));
    assert_eq!(classify_tool(&spine, "open", true), DebugToolKind::SpineOpen);
    assert_eq!(classify_tool(&None, "spine.spawn", false), DebugToolKind::SpineSpawn);
    assert_eq!(classify_tool(&None, "open", false), DebugToolKind::Other);
    assert_eq!(classify_tool(&None, "open", true), DebugToolKind::CodeMode);
    assert_eq!(classify_tool(&spine, "apply_patch", false), DebugToolKind::Patch);
    assert_eq!(
        classify_tool(&Some(String::from("server")), "tool", false),
        DebugToolKind::Mcp
    );
    assert!(DebugToolKind::SpineNext.is_spine());
    assert!(!DebugToolKind::Mcp.is_spine());
}

#[test]
fn values_are_described_by_shape() {
    let value = |text: &str| Json::parse(text.as_bytes()).expect("a JSON value");
    assert_eq!(string_shape(None), DebugStringShape::Missing);
    assert_eq!(string_shape(Some(&value("null"))), DebugStringShape::Null);
    assert_eq!(string_shape(Some(&value("1"))), DebugStringShape::WrongType);
    assert_eq!(string_shape(Some(&value("\"\""))), DebugStringShape::Empty);
    assert_eq!(string_shape(Some(&value("\"\\u2003\""))), DebugStringShape::Whitespace);
    assert!(string_shape(Some(&value("\" x\""))).is_non_empty());
    assert_eq!(
        unsigned_shape(Some(&value("18446744073709551615"))),
        DebugUnsignedShape::Unsigned(u64::MAX)
    );
    assert_eq!(unsigned_shape(Some(&value("-1"))), DebugUnsignedShape::Negative);
    assert_eq!(unsigned_shape(Some(&value("1.5"))), DebugUnsignedShape::OtherNumber);
    assert_eq!(unsigned_shape(Some(&value("\"1\""))), DebugUnsignedShape::WrongType);
}

#[test]
fn texts_are_measured_and_trimmed() {
    assert_eq!(byte_size("aß€😀"), 10);
    assert_eq!(trim("\u{a0} a b \u{2003}\n"), "a b");
    assert!(is_blank(" \t\u{3000}"));
    assert!(!is_blank(" x"));
    assert!(same_text("ß", "ß"));
    assert!(!same_text("ß", "ss"));
    assert_eq!(decimal(0), "0");
    assert_eq!(decimal(u64::MAX), "18446744073709551615");
    assert_eq!(parse_number("0042"), Some(42));
    assert_eq!(parse_number("18446744073709551616"), None);
    assert_eq!(parse_number(""), None);
}

#[test]
fn texts_are_kept_in_order() {
    assert!(comes_before("a", "b"));
    assert!(comes_before("a", "aa"));
    assert!(!comes_before("b", "aa"));
    assert!(comes_before("z", "ß"));
    let mut list = Vec::new();
    for text in ["b", "a", "b"] {
        insert_in_order(&mut list, String::from(text));
    }
    assert_eq!(list, ["a", "b"]);
    insert_all_in_order(&mut list, &vec![String::from("aa"), String::from("c")]);
    assert_eq!(list, ["a", "aa", "b", "c"]);
}

#[test]
fn a_text_map_holds_one_value_for_each_key() {
    let mut map = TextMap::new();
    map.insert(String::from("b"), 1);
    map.insert(String::from("a"), 2);
    map.insert(String::from("b"), 3);
    assert_eq!(map.len(), 2);
    assert_eq!(map.get("b"), Some(&3));
    assert_eq!(map.get("c"), None);
    assert!(map.remove("a"));
    assert!(!map.remove("a"));
    assert_eq!(map.key(0), "b");
    assert_eq!(*map.value(0), 3);
}

use spine_host::coordinator::{NodeKind, SpineCoordinator};
use spine_host::json::Json;
use spine_host::tools::{
    add_tools, check_call, control_refusal, decide_control, is_spine_tool,
    validated_control_fact, waits_for_runtime_cancellation, ModeKind, SpineOperationFact,
    SpineTool, ToolValidation, ToolValidationError, SPAWN_SUCCESS, SPINE_NAMESPACE,
};

fn definitions() -> Vec<SpineTool> {
    vec![SpineTool::Open, SpineTool::Close, SpineTool::Next, SpineTool::Spawn]
}

fn object(arguments: &str) -> Option<Vec<(String, Json)>> {
    match Json::parse(arguments.as_bytes()) {
        Some(Json::Object(fields)) => Some(fields),
        _ => None,
    }
}

/// What the tool protocol makes of the arguments of a control call.
fn host_validation(
    tool: SpineTool,
    arguments: &str,
) -> Result<ToolValidation, ToolValidationError> {
    let Some(fields) = object(arguments) else {
        return Err(ToolValidationError::InvalidJson(String::from("expected value")));
    };
    let expected: &[&str] = match tool {
        SpineTool::Open => &["summary"],
        SpineTool::Close => &["memory"],
        SpineTool::Next => &["summary", "memory"],
        SpineTool::Spawn => &[],
    };
    let mut values = Vec::new();
    for name in expected {
        let text = fields.iter().find_map(|(key, value)| match value {
            Json::Text(text) if key == name => Some(text.clone()),
            _ => None,
        });
        match text {
            Some(text) if !text.trim().is_empty() => values.push(text),
            _ => return Err(ToolValidationError::EmptyField(name.to_string())),
        }
    }
    if fields.len() != expected.len() {
        return Err(ToolValidationError::Other(String::from("unknown field")));
    }
    Ok(match tool {
        SpineTool::Open => ToolValidation::Open { summary: values.remove(0) },
        SpineTool::Close => ToolValidation::Close { memory: values.remove(0) },
        SpineTool::Next => {
            ToolValidation::Next { summary: values.remove(0), memory: values.remove(0) }
        }
        SpineTool::Spawn => ToolValidation::Spawn,
    })
}

fn validate_arguments(tool: SpineTool, arguments: &str) -> Result<SpineOperationFact, String> {
    validated_control_fact(tool, host_validation(tool, arguments))
        .map_err(|error| control_refusal(tool, &error, "described"))
}

#[test]
fn validates_control_argument_matrix() {
    for (kind, arguments) in [
        (SpineTool::Open, r#"{"summary":"task"}"#),
        (SpineTool::Close, r#"{"memory":"done"}"#),
        (SpineTool::Next, r#"{"summary":"sibling","memory":"done"}"#),
    ] {
        assert!(validate_arguments(kind, arguments).is_ok());
    }

    for (kind, arguments) in [
        (SpineTool::Open, r#"{"summary":" "}"#),
        (SpineTool::Close, r#"{"memory":""}"#),
        (SpineTool::Next, r#"{"summary":"sibling","memory":" "}"#),
        (SpineTool::Open, r#"{"summary":"task","extra":1}"#),
        (SpineTool::Close, "not-json"),
    ] {
        assert!(validate_arguments(kind, arguments).is_err());
    }

    assert!(matches!(
        validate_arguments(SpineTool::Open, r#"{"summary":" "}"#),
        Err(message) if message == "open requires a non-empty argument"
    ));
    assert!(matches!(
        validate_arguments(SpineTool::Close, "not-json"),
        Err(message) if message.starts_with("failed to parse function arguments:")
    ));
}

#[test]
fn tool_registration_follows_sdk_catalog() {
    let tools = add_tools(&definitions(), ModeKind::Default);
    assert_eq!(tools, definitions());
    assert_eq!(
        tools
            .iter()
            .map(|tool| tool.qualified_name())
            .collect::<Vec<_>>(),
        vec!["spine.open", "spine.close", "spine.next", "spine.spawn"]
    );
    assert_eq!(SPINE_NAMESPACE, "spine");
}

#[test]
fn plan_mode_suppresses_only_spawn() {
    assert_eq!(
        add_tools(&definitions(), ModeKind::Plan),
        [SpineTool::Open, SpineTool::Close, SpineTool::Next]
    );
}

#[test]
fn only_namespaced_names_are_spine_tools() {
    let namespace = Some(String::from("spine"));
    assert!(is_spine_tool(&namespace, "open"));
    assert!(is_spine_tool(&namespace, "spawn"));
    assert!(!is_spine_tool(&namespace, "shell"));
    assert!(!is_spine_tool(&None, "open"));
    assert!(!is_spine_tool(&Some(String::from("other")), "open"));
}

#[test]
fn facts_follow_the_arguments() {
    assert_eq!(
        validate_arguments(SpineTool::Next, r#"{"summary":"sibling","memory":"done"}"#),
        Ok(SpineOperationFact::Next {
            closed_memory: String::from("done"),
            next_summary: String::from("sibling"),
        })
    );
    assert!(validated_control_fact(SpineTool::Spawn, Ok(ToolValidation::Spawn)).is_err());
    assert!(validated_control_fact(SpineTool::Open, Ok(ToolValidation::Ordinary)).is_err());
}

#[test]
fn a_control_is_decided_by_arguments_and_cursor() {
    let coordinator = SpineCoordinator::new();
    let close = || Ok(ToolValidation::Close { memory: String::from("done") });
    assert_eq!(
        decide_control(SpineTool::Close, close(), "", Some(&coordinator), Some(NodeKind::Task)),
        Ok(SpineOperationFact::Close { memory: String::from("done") })
    );
    assert!(
        decide_control(
            SpineTool::Close,
            close(),
            "",
            Some(&coordinator),
            Some(NodeKind::RootEpoch)
        )
        .is_err()
    );
    assert!(decide_control(SpineTool::Close, close(), "", None, None).is_err());
}

#[test]
fn calls_are_refused_where_they_cannot_be_made() {
    assert_eq!(check_call(ModeKind::Default, true), Ok(()));
    assert!(check_call(ModeKind::Default, false).is_err());
    assert!(waits_for_runtime_cancellation(SpineTool::Spawn));
    assert!(!waits_for_runtime_cancellation(SpineTool::Open));
    assert_eq!(SPAWN_SUCCESS, "{\"status\":\"success\"}");
}

use spine_host::memory_projection::{
    existing_memory, memory_file_name, projection_enabled, projection_layout,
    render_user_messages, sanitize_summary_for_filename, user_messages_action,
    SpinetreeMemoryProjection, SpinetreeMemoryProjectionEntry, UserFileAction,
    USER_MESSAGES_FILENAME,
};
use spine_host::rollout_source::SpinetreeUserMessageProjectionEntry;

fn entry(body: &str) -> SpinetreeMemoryProjectionEntry {
    SpinetreeMemoryProjectionEntry {
        node_id: "1.2".to_string(),
        summary: "child task / close: memory?".to_string(),
        body: body.to_string(),
    }
}

fn user_entry(anchor: u64, body: &str) -> SpinetreeUserMessageProjectionEntry {
    SpinetreeUserMessageProjectionEntry {
        anchor,
        body: body.to_string(),
    }
}

fn persisted(
    existing: Option<Vec<u8>>,
    entries: Vec<SpinetreeUserMessageProjectionEntry>,
) -> Option<Vec<u8>> {
    match user_messages_action(&entries, existing.clone()) {
        UserFileAction::Skip | UserFileAction::Keep => existing,
        UserFileAction::Append(suffix) => {
            let mut file = existing.unwrap_or_default();
            file.extend(suffix);
            Some(file)
        }
        UserFileAction::Replace(body) => Some(body),
    }
}

#[test]
fn requires_spine_jit_when_enabled() {
    let err = SpinetreeMemoryProjection::from_config("session", true, false).unwrap_err();
    assert!(err.contains("requires `spine_jit`"));
    assert!(
        SpinetreeMemoryProjection::from_config("session", false, false)
            .unwrap()
            .is_none()
    );
    assert_eq!(projection_enabled(false, false), Ok(false));
    assert_eq!(projection_enabled(true, true), Ok(true));
}

#[test]
fn uses_date_and_session_id_directory_layout() {
    let today = chrono::Local::now().format("%Y/%m/%d").to_string();
    let projection = SpinetreeMemoryProjection::from_config("session-id", true, true)
        .unwrap()
        .unwrap();
    assert_eq!(projection.root, projection_layout(&today, "session-id"));
    assert_eq!(
        projection.root.join("/"),
        format!(".codex/spinetree/{today}/session-id")
    );
    let day = &projection.root[2];
    assert!(day.chars().count() >= 10);
    assert_eq!(day.matches('/').count(), 2);
}

#[test]
fn persists_readonly_memory_file_idempotently() {
    assert_eq!(
        memory_file_name(&entry("memory body")),
        "1.2_child_task_close_memory.md"
    );
    let path = "1.2_child_task_close_memory.md";
    assert!(existing_memory(path, None, "memory body").is_err());
    assert_eq!(existing_memory(path, Some("memory body"), "memory body"), Ok(()));
}

#[test]
fn rejects_existing_different_memory() {
    let err = existing_memory("1.2_child.md", Some("first"), "second").unwrap_err();
    assert!(err.contains("different content"));
}

#[test]
fn appends_and_replaces_user_projection_from_complete_snapshot() {
    let file = persisted(None, vec![user_entry(1, "first")]);
    let file = persisted(file, vec![user_entry(1, "first")]);
    assert_eq!(
        file.as_deref(),
        Some("# User Messages\n\n## User Message [U1]\nfirst\n".as_bytes())
    );

    let file = persisted(file, vec![user_entry(1, "first"), user_entry(2, "second")]);
    assert_eq!(
        file.as_deref(),
        Some(
            "# User Messages\n\n## User Message [U1]\nfirst\n\n## User Message [U2]\nsecond\n"
                .as_bytes()
        )
    );

    let file = persisted(file, vec![user_entry(1, "replacement")]);
    assert_eq!(
        file.as_deref(),
        Some("# User Messages\n\n## User Message [U1]\nreplacement\n".as_bytes())
    );

    let file = persisted(file, vec![]);
    assert_eq!(file.as_deref(), Some("# User Messages\n".as_bytes()));
}

#[test]
fn no_file_is_made_for_no_messages() {
    assert_eq!(user_messages_action(&vec![], None), UserFileAction::Skip);
    assert_eq!(
        user_messages_action(&vec![], Some(b"# User Messages\n".to_vec())),
        UserFileAction::Keep
    );
    assert_eq!(
        user_messages_action(&vec![user_entry(1, "a")], Some(b"# User Messages\n".to_vec())),
        UserFileAction::Append(b"\n## User Message [U1]\na\n".to_vec())
    );
    assert_eq!(render_user_messages(&vec![]), "# User Messages\n");
    assert_eq!(USER_MESSAGES_FILENAME, "USER.md");
}

#[test]
fn summaries_become_safe_file_names() {
    assert_eq!(sanitize_summary_for_filename("a/b\\c:d"), "a_b_c_d");
    assert_eq!(
        sanitize_summary_for_filename("  child task / close: memory?  "),
        "child_task_close_memory"
    );
    let long = sanitize_summary_for_filename(&"x".repeat(200));
    assert_eq!(long.chars().count(), 96);
    assert!(!sanitize_summary_for_filename("\u{7}\u{9f}///").contains('/'));
    for summary in ["", "a__b", "_a_", " x  y ", "a/ /b", &"x_".repeat(60)] {
        let part = sanitize_summary_for_filename(summary);
        assert!(!part.contains("__"));
        assert!(!part.starts_with('_') && !part.ends_with('_') && !part.is_empty());
        assert_eq!(sanitize_summary_for_filename(&part), part);
    }
}

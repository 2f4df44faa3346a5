use serde_json::Value;
use spine_host::fragments::{
    spine_model_item_wire_bytes, SpawnOutcome, MAX_SPINE_MODEL_ITEM_WIRE_BYTES,
};
use spine_host::spawn::{
    aborted_result, capacity_rejection_receipt, error_result, finish_receipt,
    normalized_progress_status, result_from_status, spawn_progress_event, validated_receipt,
    AgentStatus, SpawnResult, SpawnTask, SpineSpawnProgressEvent, SpineSpawnTaskProgress,
    CONTINUE_AFTER_FAILURE_MESSAGE,
};
use spine_host::spawn_batch::{
    watched_result, CollectCancellation, CollectStep, CollectWait, LiveSpawnBatch,
    SpawnBatchRegistry,
};
use spine_host::spawn_control::{
    abort_started_children, admit_children, child_names, collect_child_paths,
    correct_intermediate_messages, enter_transaction, judged_status, teardown_error, Admission,
    AdmissionError, Correction, EarlyMessage, SpawnLifecycle, TerminalWait, WaitAction,
};
use spine_host::spawn_gate::{
    append_failure_guidance, failure_gate_enabled, failure_question, parse_failure_decision,
    QuestionAnswer,
    SpawnFailureAction, SpawnFailureDecision, FAILURE_ACTION_QUESTION_ID,
    MAX_FAILURE_GUIDANCE_CHARS,
};
use spine_host::spawn_tasks::{
    author_is_in_transaction_subtree, check_task_limit, classify_start_results, parse_tasks,
    path_is_in_subtree, task_envelope, transaction_task_name, LiveBranch, RequestValidation,
    StartPhase,
};
use spine_host::spawn_transaction::{
    check_retry_paths, GateAnswer, RetryAdmission, SpawnPhase, SpawnTransaction,
};

const SCHEMA: &str = "spine.spawn_receipt.v1";

fn task(summary: &str, prompt: &str) -> SpawnTask {
    SpawnTask { summary: summary.to_string(), prompt: prompt.to_string() }
}

fn tasks() -> Vec<SpawnTask> {
    vec![
        task("parser", "Implement the parser."),
        task("compatibility", "Test compatibility."),
    ]
}

fn texts(list: &[&str]) -> Vec<String> {
    list.iter().map(|text| text.to_string()).collect()
}

fn child_input(text: &str) -> String {
    let string = |value: &str| Value::String(value.to_string());
    let mut part = serde_json::Map::new();
    part.insert(String::from("type"), string("input_text"));
    part.insert(String::from("text"), string(text));
    let mut item = serde_json::Map::new();
    item.insert(String::from("type"), string("message"));
    item.insert(String::from("role"), string("user"));
    item.insert(String::from("content"), Value::Array(vec![Value::Object(part)]));
    Value::Object(item).to_string()
}

fn empty_item_bytes() -> usize {
    spine_model_item_wire_bytes(child_input("").len())
}

/// What the tool protocol makes of the arguments of a spawn call.
fn host_validation(arguments: &str) -> Result<RequestValidation, String> {
    let value: Value = serde_json::from_str(arguments).map_err(|error| error.to_string())?;
    let fields = value.as_object().ok_or("arguments must be an object")?;
    if fields.len() != 1 {
        return Err(String::from("unknown field"));
    }
    let list = fields
        .get("tasks")
        .and_then(Value::as_array)
        .ok_or("tasks must be a list")?;
    if list.len() < 2 {
        return Err(String::from("a spawn takes at least two tasks"));
    }
    let mut parsed = Vec::new();
    for entry in list {
        let summary = entry["summary"].as_str().unwrap_or("");
        let prompt = entry["prompt"].as_str().unwrap_or("");
        if summary.trim().is_empty() || prompt.trim().is_empty() {
            return Err(String::from("a task takes a summary and a prompt"));
        }
        parsed.push(task(summary, prompt));
    }
    Ok(RequestValidation::Spawn(parsed))
}

fn parse_arguments(arguments: &str) -> Result<Vec<SpawnTask>, String> {
    parse_tasks(host_validation(arguments), empty_item_bytes())
}

fn arguments_of(tasks: &[SpawnTask]) -> String {
    let list = tasks
        .iter()
        .map(|task| {
            let mut entry = serde_json::Map::new();
            entry.insert(String::from("summary"), Value::String(task.summary.clone()));
            entry.insert(String::from("prompt"), Value::String(task.prompt.clone()));
            Value::Object(entry)
        })
        .collect();
    let mut fields = serde_json::Map::new();
    fields.insert(String::from("tasks"), Value::Array(list));
    Value::Object(fields).to_string()
}

#[test]
fn parse_tasks_validates_complete_batch_before_admission() {
    let parsed = parse_arguments(
        r#"{"tasks":[{"summary":"parser","prompt":"first"},{"summary":"tests","prompt":"second"}]}"#,
    )
    .unwrap();
    assert_eq!(parsed, vec![task("parser", "first"), task("tests", "second")]);

    for invalid in [
        r#"{"tasks":[]}"#,
        r#"{"tasks":[{"summary":"one","prompt":"first"}]}"#,
        r#"{"tasks":[{"summary":"same","prompt":"first"},{"summary":" same ","prompt":"second"}]}"#,
        r#"{"tasks":[{"summary":"one","prompt":""},{"summary":"two","prompt":"second"}]}"#,
        r#"{"tasks":[{"summary":"one","prompt":"first"},{"summary":"two","prompt":"second"}],"extra":true}"#,
    ] {
        assert!(parse_arguments(invalid).is_err(), "accepted {invalid}");
    }
}

#[test]
fn duplicate_summaries_and_foreign_validations_are_refused() {
    let same = RequestValidation::Spawn(vec![task("same", "first"), task(" same ", "second")]);
    assert_eq!(
        parse_tasks(Ok(same), empty_item_bytes()),
        Err(String::from("spine.spawn task 1 has duplicate summary `same`"))
    );
    assert_eq!(
        parse_tasks(Ok(RequestValidation::Other), 0),
        Err(String::from("spine.spawn validation returned an unexpected result"))
    );
}

#[test]
fn task_envelope_injects_identity_and_peer_roster() {
    let tasks = tasks();
    let envelope = task_envelope(&tasks[0], &tasks);

    assert!(envelope.contains("You are: parser"));
    assert!(envelope.contains("Peer branches in this spawn:\n- compatibility"));
    assert!(envelope.ends_with("Assignment:\nImplement the parser."));
}

fn child_input_token_upper_bound(tasks: &Vec<SpawnTask>, ordinal: usize) -> usize {
    spine_model_item_wire_bytes(child_input(&task_envelope(&tasks[ordinal], tasks)).len())
}

fn task_pair_with_first_input_tokens(target_tokens: usize) -> Vec<SpawnTask> {
    let mut tasks = vec![task("parser", ""), task("compatibility", "Test compatibility.")];
    let remaining = target_tokens.saturating_sub(child_input_token_upper_bound(&tasks, 0));
    tasks[0].prompt = "a".repeat(remaining);
    assert_eq!(child_input_token_upper_bound(&tasks, 0), target_tokens);
    tasks
}

#[test]
fn parse_tasks_accepts_a_complete_child_input_at_the_hard_boundary() {
    let tasks = task_pair_with_first_input_tokens(MAX_SPINE_MODEL_ITEM_WIRE_BYTES);
    let arguments = arguments_of(&tasks);

    let parsed = parse_arguments(&arguments).expect("input at the model boundary is valid");
    assert_eq!(
        child_input_token_upper_bound(&parsed, 0),
        MAX_SPINE_MODEL_ITEM_WIRE_BYTES
    );
}

#[test]
fn parse_tasks_rejects_one_safety_token_over_the_complete_child_input_boundary() {
    let tasks = task_pair_with_first_input_tokens(MAX_SPINE_MODEL_ITEM_WIRE_BYTES + 1);
    let arguments = arguments_of(&tasks);

    let error = parse_arguments(&arguments).expect_err("oversized child input must be rejected");
    assert!(error.contains("child initial input"));
    assert!(error.contains("task 0"));
}

#[test]
fn parse_tasks_counts_unicode_escaping_and_peer_rosters_in_child_input() {
    let tasks = vec![
        task("parser", &"界\"\\\n".repeat(700)),
        task(&"peer".repeat(256), "Test compatibility."),
    ];
    let arguments = arguments_of(&tasks);

    let error = parse_arguments(&arguments).expect_err("peer roster must be included in the limit");
    assert!(error.contains("child initial input"));
}

#[test]
fn spawn_progress_event_preserves_task_identity_and_status() {
    let tasks = tasks();
    let thread_ids = texts(&["thread-1", "thread-2"]);
    let paths = texts(&["/root/parser", "/root/compatibility"]);
    let statuses = vec![
        AgentStatus::Running,
        AgentStatus::Errored("provider failure".to_string()),
    ];

    assert_eq!(
        spawn_progress_event("spawn-call", &tasks, &thread_ids, &paths, &statuses),
        SpineSpawnProgressEvent {
            call_id: "spawn-call".to_string(),
            tasks: vec![
                SpineSpawnTaskProgress {
                    ordinal: 0,
                    summary: "parser".to_string(),
                    thread_id: thread_ids[0].clone(),
                    agent_path: paths[0].clone(),
                    status: AgentStatus::Running,
                },
                SpineSpawnTaskProgress {
                    ordinal: 1,
                    summary: "compatibility".to_string(),
                    thread_id: thread_ids[1].clone(),
                    agent_path: paths[1].clone(),
                    status: AgentStatus::Errored("provider failure".to_string()),
                },
            ],
        }
    );
}

#[test]
fn transaction_task_names_are_path_safe_and_stable() {
    assert_eq!(transaction_task_name("Call-ID.42", 3), "spawn_callid42_3");
    assert_eq!(transaction_task_name("!!!", 0), "spawn_call_0");
}

#[test]
fn abort_barrier_cancels_active_transaction_and_blocks_new_admission() {
    let mut lifecycle = SpawnLifecycle::default();
    assert!(lifecycle.try_enter(7));
    let barrier = lifecycle.begin_abort();

    assert_eq!(barrier.map(|active| active.cancellation), Some(7));
    assert!(!lifecycle.try_enter(8));
    assert!(!lifecycle.is_quiescent());
    lifecycle.leave();
    assert!(lifecycle.is_quiescent());
    assert!(!lifecycle.try_enter(8));
    lifecycle.end_abort();
    assert!(lifecycle.try_enter(8));
}

#[test]
fn start_failure_is_total_and_keeps_input_ordinals() {
    let paths = texts(&["/root/spawn_0", "/root/spawn_1", "/root/spawn_2"]);
    let StartPhase {
        live,
        mut results,
        failed,
    } = classify_start_results(
        &paths,
        vec![
            Ok(String::from("first")),
            Err(String::from("injected start failure")),
            Ok(String::from("third")),
        ],
    );

    assert!(failed);
    assert_eq!(
        live.iter()
            .map(|branch| (branch.ordinal, branch.thread_id.as_str()))
            .collect::<Vec<_>>(),
        vec![(0, "first"), (2, "third")]
    );
    for branch in live {
        results[branch.ordinal] = Some(error_result(
            branch.ordinal,
            SpawnOutcome::Aborted,
            "sibling start failed".to_string(),
            Some(branch.thread_id),
        ));
    }
    let receipt = finish_receipt(SCHEMA, results);
    assert_eq!(
        receipt
            .results
            .iter()
            .map(|result| (result.ordinal, result.outcome))
            .collect::<Vec<_>>(),
        vec![
            (0, SpawnOutcome::Aborted),
            (1, SpawnOutcome::Errored),
            (2, SpawnOutcome::Aborted),
        ]
    );
}

#[test]
fn terminal_statuses_produce_truthful_total_receipt() {
    let statuses = [
        AgentStatus::Completed(Some("memory".to_string())),
        AgentStatus::Completed(None),
        AgentStatus::Errored("provider failure".to_string()),
        AgentStatus::Shutdown,
    ];
    let results = statuses
        .into_iter()
        .enumerate()
        .map(|(ordinal, status)| Some(result_from_status(ordinal, "thread", &status)))
        .collect();

    let receipt = finish_receipt(SCHEMA, results);
    assert_eq!(receipt.schema, SCHEMA);
    assert_eq!(
        receipt
            .results
            .iter()
            .map(|result| (result.ordinal, result.outcome))
            .collect::<Vec<_>>(),
        vec![
            (0, SpawnOutcome::Completed),
            (1, SpawnOutcome::Errored),
            (2, SpawnOutcome::Errored),
            (3, SpawnOutcome::Aborted),
        ]
    );
    assert_eq!(receipt.results[0].memory_body, "memory");
    assert!(receipt.results[1..].iter().all(|result| {
        !result.memory_body.trim().is_empty()
            && result
                .diagnostic
                .as_deref()
                .is_some_and(|diagnostic| !diagnostic.trim().is_empty())
    }));
}

#[test]
fn capacity_rejection_is_ordered_and_creates_no_execution_refs() {
    let tasks = tasks();
    let receipt = capacity_rejection_receipt(SCHEMA, &tasks, 1);

    assert_eq!(receipt.results.len(), tasks.len());
    for (ordinal, result) in receipt.results.iter().enumerate() {
        assert_eq!(result.ordinal, ordinal as u32);
        assert_eq!(result.outcome, SpawnOutcome::Errored);
        assert_eq!(result.execution_ref, None);
        assert!(result.memory_body.contains("all-or-nothing"));
    }
}

#[test]
fn missing_internal_result_fails_closed_as_an_errored_result() {
    let completed = result_from_status(
        0,
        "thread",
        &AgentStatus::Completed(Some("memory".to_string())),
    );
    let receipt = finish_receipt(SCHEMA, vec![Some(completed), None]);

    assert_eq!(receipt.results[0].outcome, SpawnOutcome::Completed);
    assert_eq!(receipt.results[1].outcome, SpawnOutcome::Errored);
    assert!(
        receipt.results[1]
            .diagnostic
            .as_deref()
            .is_some_and(|diagnostic| diagnostic.contains("lost"))
    );
}

#[test]
fn a_receipt_that_the_protocol_refuses_is_not_returned() {
    let receipt = finish_receipt(SCHEMA, vec![None]);
    assert!(validated_receipt(receipt, Ok(())).is_ok());
    let receipt = finish_receipt(SCHEMA, vec![None]);
    assert!(validated_receipt(receipt, Err(String::from("bad"))).is_err());
}

#[test]
fn a_task_list_keeps_a_thread_for_the_root() {
    assert_eq!(check_task_limit(3, 4, 8), Ok(()));
    assert_eq!(
        check_task_limit(4, 4, 8),
        Err(String::from("spine.spawn accepts at most 3 tasks"))
    );
    assert_eq!(
        check_task_limit(3, 100, 2),
        Err(String::from("spine.spawn accepts at most 2 tasks"))
    );
    assert_eq!(
        check_task_limit(1, 0, 2),
        Err(String::from("spine.spawn accepts at most 0 tasks"))
    );
}

#[test]
fn a_path_is_below_its_root_only_at_a_separator() {
    assert!(path_is_in_subtree("/root/a", "/root/a"));
    assert!(path_is_in_subtree("/root/a/b", "/root/a"));
    assert!(!path_is_in_subtree("/root/ab", "/root/a"));
    assert!(author_is_in_transaction_subtree("/root/b/c", &texts(&["/root/a", "/root/b"])));
    assert!(!author_is_in_transaction_subtree("/root", &texts(&["/root/a"])));
}

fn response(answers: Vec<&str>) -> Vec<QuestionAnswer> {
    vec![QuestionAnswer {
        question_id: FAILURE_ACTION_QUESTION_ID.to_string(),
        answers: answers.into_iter().map(str::to_string).collect(),
    }]
}

#[test]
fn parses_each_gate_action() {
    for (label, action) in [
        ("Continue", SpawnFailureAction::Continue),
        ("Retry", SpawnFailureAction::Retry),
        ("Abandon", SpawnFailureAction::Abandon),
    ] {
        assert_eq!(
            parse_failure_decision(&response(vec![label])),
            Some(SpawnFailureDecision { action, note: None })
        );
    }
}

#[test]
fn extracts_and_bounds_optional_user_guidance() {
    let long_note = "x".repeat(MAX_FAILURE_GUIDANCE_CHARS + 10);
    let parsed = parse_failure_decision(&response(vec![
        "Continue",
        "user_note: first",
        &format!("user_note: {long_note}"),
    ]))
    .expect("valid response");
    let note = parsed.note.expect("note");
    assert!(note.starts_with("first\n"));
    assert_eq!(note.chars().count(), MAX_FAILURE_GUIDANCE_CHARS);
}

#[test]
fn rejects_empty_unknown_and_malformed_answers() {
    assert_eq!(parse_failure_decision(&response(Vec::new())), None);
    assert_eq!(parse_failure_decision(&response(vec!["Unknown"])), None);
    assert_eq!(
        parse_failure_decision(&response(vec!["Retry", "unexpected"])),
        None
    );
}

#[test]
fn the_user_is_asked_about_the_failed_branches() {
    let question = failure_question(1, 3);
    assert_eq!(question.id, FAILURE_ACTION_QUESTION_ID);
    assert_eq!(question.header, "Spawn failed");
    assert_eq!(
        question.question,
        "1 of 3 spawned branches failed. Choose what to do with the failed branches."
    );
    let labels: Vec<&str> = question.options.iter().map(|option| option.label).collect();
    assert_eq!(labels, vec!["Continue", "Retry", "Abandon"]);
    assert_eq!(parse_failure_decision(&Vec::new()), None);
    let blank = parse_failure_decision(&response(vec!["Retry", "user_note:   "]));
    assert_eq!(
        blank,
        Some(SpawnFailureDecision { action: SpawnFailureAction::Retry, note: None })
    );
    let guided = append_failure_guidance(String::from("Go on."), Some("mind the gap"));
    assert!(guided.starts_with("Go on."));
    assert!(guided.ends_with("mind the gap"));
    assert_eq!(append_failure_guidance(String::from("Go on."), None), "Go on.");
}

fn transaction(gate_enabled: bool) -> SpawnTransaction {
    SpawnTransaction::begin(
        "call",
        tasks(),
        texts(&["/root/a", "/root/b"]),
        if gate_enabled { Some("/root") } else { Some("/root/parent") },
        "/root",
        texts(&["t-a", "t-b"]),
        vec![AgentStatus::Running, AgentStatus::Running],
    )
}

#[test]
fn only_the_root_agents_failures_are_put_to_the_user() {
    assert!(failure_gate_enabled(None, "/root"));
    assert!(failure_gate_enabled(Some("/root"), "/root"));
    assert!(!failure_gate_enabled(Some("/root/parent"), "/root"));
    for (gate_enabled, phase) in [(true, SpawnPhase::Gate), (false, SpawnPhase::Teardown)] {
        let mut transaction = transaction(gate_enabled);
        transaction.attempt_settled(0, &completed("done"));
        transaction.attempt_settled(1, &AgentStatus::Errored(String::from("boom")));
        transaction.attempts_completed();
        assert_eq!(transaction.phase(), phase);
    }
}

fn completed(memory: &str) -> AgentStatus {
    AgentStatus::Completed(Some(memory.to_string()))
}

fn outcomes(receipt: &[SpawnResult]) -> Vec<SpawnOutcome> {
    receipt.iter().map(|result| result.outcome).collect()
}

#[test]
fn a_transaction_without_failures_only_tears_down() {
    let mut transaction = transaction(true);
    assert_eq!(transaction.phase(), SpawnPhase::Attempts);
    assert_eq!(transaction.attempts().len(), 2);
    transaction.attempt_settled(1, &completed("second"));
    assert_eq!(transaction.progress().tasks[1].status, AgentStatus::Completed(None));
    transaction.attempt_settled(0, &completed("first"));
    transaction.attempts_completed();
    assert_eq!(transaction.phase(), SpawnPhase::Teardown);
    assert_eq!(transaction.teardown_threads(), texts(&["t-a", "t-b"]));
    let receipt = transaction.finish(SCHEMA, None).expect("receipt");
    assert_eq!(receipt.results[0].memory_body, "first");
    assert_eq!(receipt.results[1].memory_body, "second");
}

#[test]
fn a_failed_teardown_fails_the_transaction() {
    let mut transaction = transaction(false);
    transaction.attempt_settled(0, &completed("first"));
    transaction.attempt_settled(1, &AgentStatus::NotFound);
    transaction.attempts_completed();
    assert_eq!(transaction.phase(), SpawnPhase::Teardown);
    let error = transaction.finish(SCHEMA, Some(String::from("stuck"))).expect_err("teardown");
    assert!(error.contains("stuck"));
    assert!(teardown_error("stuck").contains("stuck"));
}

#[test]
fn a_cancelled_transaction_aborts_what_is_unfinished() {
    let mut transaction = transaction(true);
    transaction.attempts_cancelled(&vec![completed("done"), AgentStatus::Running]);
    assert!(transaction.is_cancelled());
    assert_eq!(transaction.phase(), SpawnPhase::Teardown);
    let receipt = transaction.finish(SCHEMA, None).expect("receipt");
    assert_eq!(
        outcomes(&receipt.results),
        vec![SpawnOutcome::Completed, SpawnOutcome::Aborted]
    );
}

fn failed_transaction() -> SpawnTransaction {
    let mut transaction = transaction(true);
    transaction.attempt_settled(0, &completed("first"));
    transaction.attempt_settled(1, &AgentStatus::Errored(String::from("broken")));
    transaction.attempts_completed();
    assert_eq!(transaction.phase(), SpawnPhase::Gate);
    assert_eq!(transaction.failed(), &vec![1]);
    transaction
}

fn decided(action: SpawnFailureAction, note: Option<&str>) -> GateAnswer {
    GateAnswer::Decided(SpawnFailureDecision { action, note: note.map(str::to_string) })
}

#[test]
fn abandoned_failures_are_returned() {
    let mut transaction = failed_transaction();
    transaction.gate_answered(decided(SpawnFailureAction::Abandon, None));
    let receipt = transaction.finish(SCHEMA, None).expect("receipt");
    assert_eq!(
        outcomes(&receipt.results),
        vec![SpawnOutcome::Completed, SpawnOutcome::Errored]
    );
}

#[test]
fn continued_branches_are_waited_for_again() {
    let mut transaction = failed_transaction();
    let first_call = transaction.gate_call_id();
    transaction.gate_answered(decided(SpawnFailureAction::Continue, Some("look closer")));
    assert_eq!(transaction.phase(), SpawnPhase::Subscriptions);
    assert_eq!(transaction.pending(), &vec![1]);
    transaction.subscribed(&vec![None]);
    assert_eq!(transaction.phase(), SpawnPhase::Reservation);
    transaction.reserved(&None);
    assert_eq!(transaction.phase(), SpawnPhase::Continuations);
    let input = transaction.continuation_input();
    assert!(input.starts_with(CONTINUE_AFTER_FAILURE_MESSAGE));
    assert!(input.contains("look closer"));
    transaction.continuations_sent(&vec![None]);
    assert_eq!(transaction.phase(), SpawnPhase::Attempts);
    assert_eq!(transaction.attempts().len(), 1);
    assert!(transaction.attempts()[0].resumed);
    assert_ne!(transaction.gate_call_id(), first_call);
    transaction.attempt_settled(0, &completed("at last"));
    transaction.attempts_completed();
    assert_eq!(transaction.phase(), SpawnPhase::Teardown);
    let receipt = transaction.finish(SCHEMA, None).expect("receipt");
    assert_eq!(
        outcomes(&receipt.results),
        vec![SpawnOutcome::Completed, SpawnOutcome::Completed]
    );
    assert_eq!(receipt.results[1].memory_body, "at last");
}

#[test]
fn a_continuation_that_cannot_be_sent_is_put_to_the_user_again() {
    let mut transaction = failed_transaction();
    transaction.gate_answered(decided(SpawnFailureAction::Continue, None));
    transaction.subscribed(&vec![None]);
    transaction.reserved(&None);
    transaction.continuations_sent(&vec![Some(String::from("closed"))]);
    assert_ne!(transaction.phase(), SpawnPhase::Continuations);
}

#[test]
fn retried_branches_start_in_new_threads() {
    let mut transaction = failed_transaction();
    transaction.gate_answered(decided(SpawnFailureAction::Retry, Some("start over")));
    assert_eq!(transaction.phase(), SpawnPhase::RetryTeardown);
    assert_eq!(transaction.retry_teardown_threads(), texts(&["t-b"]));
    transaction.retry_torn_down(None, false);
    assert_eq!(transaction.phase(), SpawnPhase::RetryAdmission);
    transaction.retry_admitted(RetryAdmission::Admitted { cancelled: false });
    assert_eq!(transaction.phase(), SpawnPhase::RetryStarts);
    assert!(transaction.retry_input(0).contains("start over"));
    transaction.retry_started(&vec![Ok(String::from("t-b2"))]);
    assert_eq!(transaction.phase(), SpawnPhase::RetryStatuses);
    transaction.retry_statuses(&vec![AgentStatus::Running]);
    assert_eq!(transaction.phase(), SpawnPhase::Attempts);
    assert_eq!(transaction.attempts()[0].thread_id, "t-b2");
    transaction.attempt_settled(0, &completed("second try"));
    transaction.attempts_completed();
    assert_eq!(transaction.teardown_threads(), texts(&["t-a", "t-b2"]));
    let receipt = transaction.finish(SCHEMA, None).expect("receipt");
    assert_eq!(receipt.results[1].memory_body, "second try");
}

#[test]
fn a_cancelled_question_ends_the_transaction() {
    let mut transaction = failed_transaction();
    transaction.gate_answered(GateAnswer::Cancelled);
    assert!(transaction.is_cancelled());
    assert_eq!(transaction.phase(), SpawnPhase::Teardown);
    let mut dismissed = failed_transaction();
    dismissed.gate_answered(GateAnswer::Dismissed);
    assert!(!dismissed.is_cancelled());
    assert_eq!(dismissed.phase(), SpawnPhase::Teardown);
}

#[test]
fn retried_paths_must_be_the_old_ones() {
    let paths = texts(&["/root/a", "/root/b"]);
    let same = vec![Ok(Some(String::from("/root/b")))];
    assert_eq!(check_retry_paths(&paths, &vec![1], &same), Ok(()));
    let other = vec![Ok(Some(String::from("/root/c")))];
    assert!(check_retry_paths(&paths, &vec![1], &other).is_err());
    assert!(check_retry_paths(&paths, &vec![1], &vec![Ok(None)]).is_err());
}

#[test]
fn a_transaction_is_entered_before_children_are_created() {
    assert_eq!(enter_transaction(true, false), Ok(()));
    assert_eq!(
        enter_transaction(false, true),
        Err(String::from(
            "spine.spawn cannot start while another transaction is active or aborting"
        ))
    );
    assert_eq!(
        enter_transaction(true, true),
        Err(String::from("spine.spawn was cancelled before child creation"))
    );
    assert_eq!(child_names("Call-1", 2), texts(&["spawn_call1_0", "spawn_call1_1"]));
    assert_eq!(
        collect_child_paths(vec![Ok(Some(String::from("/root/a")))]),
        Ok(texts(&["/root/a"]))
    );
    assert!(collect_child_paths(vec![Ok(None)]).is_err());
    assert!(collect_child_paths(vec![Err(String::from("bad"))]).is_err());
}

#[test]
fn children_are_admitted_together_or_not_at_all() {
    let tasks = tasks();
    assert!(matches!(admit_children(SCHEMA, &tasks, Ok(2), false), Admission::Start));
    let Admission::Fail(partial) = admit_children(SCHEMA, &tasks, Ok(1), false) else {
        panic!("expected a failure");
    };
    assert_eq!(partial, "spine.spawn admission prepared 1 of 2 children");
    let Admission::Fail(cancelled) = admit_children(SCHEMA, &tasks, Ok(2), true) else {
        panic!("expected a failure");
    };
    assert_eq!(cancelled, "spine.spawn was cancelled before child creation");
    let limit = Err(AdmissionError::AgentLimitReached { max_threads: 1 });
    let Admission::Reject(receipt) = admit_children(SCHEMA, &tasks, limit, false) else {
        panic!("expected a rejection");
    };
    assert_eq!(receipt.results.len(), 2);
    let other = Err(AdmissionError::Other(String::from("offline")));
    let Admission::Fail(error) = admit_children(SCHEMA, &tasks, other, false) else {
        panic!("expected a failure");
    };
    assert_eq!(error, "spine.spawn admission failed: offline");
}

#[test]
fn children_that_started_are_aborted_with_the_others() {
    let phase = || {
        classify_start_results(
            &texts(&["/root/a", "/root/b"]),
            vec![Ok(String::from("t-a")), Err(String::from("no thread"))],
        )
    };
    let receipt = abort_started_children(SCHEMA, phase(), None).expect("receipt");
    assert_eq!(
        outcomes(&receipt.results),
        vec![SpawnOutcome::Aborted, SpawnOutcome::Errored]
    );
    assert!(abort_started_children(SCHEMA, phase(), Some(String::from("stuck"))).is_err());
}

#[test]
fn a_silent_branch_is_reminded_once() {
    let (mut wait, action) = TerminalWait::started(true);
    assert_eq!(action, WaitAction::ReadStatus);
    assert_eq!(wait.on_status(AgentStatus::Running), WaitAction::AwaitChange);
    assert_eq!(wait.on_change(false), WaitAction::ReadStatus);
    assert_eq!(
        wait.on_status(AgentStatus::Completed(None)),
        WaitAction::RequestFinalMemory
    );
    assert_eq!(wait.on_reminded(None), WaitAction::AwaitChange);
    assert_eq!(
        wait.on_status(AgentStatus::Completed(None)),
        WaitAction::Done(AgentStatus::Completed(None))
    );
    assert_eq!(
        wait.on_reminded(Some(String::from("closed"))),
        WaitAction::Done(AgentStatus::Errored(String::from(
            "failed to request missing final memory: closed"
        )))
    );
    assert_eq!(wait.on_change(true), WaitAction::LookUpStatus);
    assert_eq!(TerminalWait::started(false).1, WaitAction::LookUpStatus);
    assert_eq!(TerminalWait::resumed().1, WaitAction::AwaitChange);
    assert_eq!(judged_status(completed("a"), None), completed("a"));
    assert_eq!(
        normalized_progress_status(0, "t", completed("a")),
        AgentStatus::Completed(None)
    );
    assert_eq!(
        normalized_progress_status(0, "t", AgentStatus::Running),
        AgentStatus::Running
    );
}

#[test]
fn early_messages_are_corrected_once_each() {
    let children = vec![LiveBranch {
        ordinal: 0,
        thread_id: String::from("t-a"),
        path: String::from("/root/a"),
    }];
    let message = |id: &str, author: &str| EarlyMessage {
        id: Some(id.to_string()),
        author: author.to_string(),
        registered: None,
    };
    let messages = vec![
        message("m-1", "/root/a"),
        message("m-1", "/root/a"),
        message("m-2", "/root/other"),
    ];
    let mut corrected = vstd::hash_set::StringHashSet::new();
    let corrections = correct_intermediate_messages(&children, &messages, &mut corrected);
    assert_eq!(
        corrections,
        vec![Correction { thread_id: String::from("t-a"), recipient: String::from("/root/a") }]
    );
    assert_eq!(correct_intermediate_messages(&children, &messages, &mut corrected), vec![]);
}

fn batch() -> LiveSpawnBatch {
    let live = vec![
        LiveBranch {
            ordinal: 0,
            thread_id: String::from("t-a"),
            path: String::from("/root/a"),
        },
        LiveBranch {
            ordinal: 1,
            thread_id: String::from("t-b"),
            path: String::from("/root/b"),
        },
    ];
    LiveSpawnBatch::new(
        String::from("call"),
        tasks(),
        texts(&["/root/a", "/root/b"]),
        &live,
        texts(&["t-a", "t-b"]),
        vec![AgentStatus::Running, AgentStatus::Running],
    )
}

#[test]
fn a_batch_is_collected_in_waves() {
    let mut registry = SpawnBatchRegistry::default();
    assert!(!registry.is_pending());
    assert_eq!(registry.reject_structural_control(), Ok(()));
    assert_eq!(registry.arm(batch()), Ok(()));
    assert!(registry.is_pending());
    assert!(registry.reject_structural_control().is_err());
    assert!(registry.arm(batch()).is_err());
    assert_eq!(registry.collect_step(CollectWait::Any, false), CollectStep::Wait);

    let live = registry.live.as_mut().expect("live");
    let result = result_from_status(1, "t-b", &completed("second"));
    assert_eq!(
        live.child_finished(1, &result),
        Some((String::from("t-b"), String::from("/root/b")))
    );
    assert_eq!(live.child_finished(1, &result), None);
    live.child_settled(1, result);
    assert_eq!(live.progress().tasks[1].status, AgentStatus::Completed(None));
    assert_eq!(registry.collect_step(CollectWait::All, false), CollectStep::Wait);
    let CollectStep::Harvest(results) = registry.collect_step(CollectWait::Any, false) else {
        panic!("expected a harvest");
    };
    assert_eq!(results.len(), 1);
    let receipt = finish_receipt(SCHEMA, vec![Some(results.into_iter().next().unwrap().1)]);
    let wave = registry
        .harvest(Ok((vec![task("compatibility", "Test compatibility.")], receipt)))
        .expect("wave");
    assert_eq!(wave.spawn_call_id, "call");
    assert!(!wave.complete);
    assert_eq!(wave.pending_summaries, texts(&["parser"]));
    assert!(registry.is_pending());
}

#[test]
fn a_cancelled_batch_is_aborted() {
    let mut registry = SpawnBatchRegistry::default();
    assert_eq!(registry.arm(batch()), Ok(()));
    assert_eq!(registry.collect_step(CollectWait::Any, true), CollectStep::Abort);
    let live = registry.live.as_mut().expect("live");
    assert_eq!(
        live.abort(),
        vec![
            (String::from("t-a"), String::from("/root/a")),
            (String::from("t-b"), String::from("/root/b")),
        ]
    );
    assert_eq!(live.abort(), vec![]);
    let message = registry.cancelled(CollectCancellation::Batch);
    assert!(!message.is_empty());
    let result = watched_result(0, "t-a", &AgentStatus::Running, true);
    assert_eq!(result.outcome, SpawnOutcome::Aborted);
    assert_eq!(
        aborted_result(0, &Some(String::from("t-a"))).execution_ref,
        Some(String::from("t-a"))
    );
}

use spine_host::history::{HistoryBody, HistoryItem};
use spine_host::input_queue::{
    adopted_root, CyberAccessProgram, InputQueue, InputQueueActivity, InterAgentCommunication,
    ResponseItemEnvelope, TurnInput, TurnStartOptions, TurnState, UserInput,
};
use spine_host::mailbox::{
    deduplicated_paths, MailboxSubmissionCancellation, MailboxSubmissionTracker,
};

fn make_mail(
    author: &str,
    recipient: &str,
    content: &str,
    trigger_turn: bool,
) -> InterAgentCommunication {
    InterAgentCommunication {
        id: None,
        author: author.to_string(),
        recipient: recipient.to_string(),
        content: content.to_string(),
        trigger_turn,
        rest: Some(content.len() as u64),
    }
}

fn other_item() -> HistoryItem {
    HistoryItem {
        id: None,
        payload: None,
        body: HistoryBody::Other { encoded: String::from("{\"type\":\"other\"}") },
    }
}

fn user_input(text: &str) -> TurnInput {
    TurnInput::UserInput {
        content: vec![UserInput::Text { text: text.to_string() }],
        client_id: None,
    }
}

fn paths(list: &[&str]) -> Vec<String> {
    list.iter().map(|path| path.to_string()).collect()
}

#[test]
fn response_item_serde_preserves_legacy_shape_and_rejects_metadata() {
    let plain = TurnInput::ResponseItem(ResponseItemEnvelope {
        item: other_item(),
        annotated: false,
    });
    assert_eq!(plain.check_serializable(), Ok(()));
    let annotated = TurnInput::ResponseItem(ResponseItemEnvelope {
        item: other_item(),
        annotated: true,
    });
    assert!(annotated.check_serializable().is_err());
    assert_eq!(user_input("hello").check_serializable(), Ok(()));
}

#[test]
fn input_queue_notifies_mailbox_subscribers() {
    let mut input_queue = InputQueue::new();
    assert_eq!(input_queue.pending_activity(None), None);

    input_queue.enqueue_mailbox_communication(
        make_mail("/root", "/root/worker", "one", false),
        Default::default(),
    );
    input_queue.enqueue_mailbox_communication(
        make_mail("/root", "/root/worker", "two", false),
        Default::default(),
    );

    assert_eq!(input_queue.activity, InputQueueActivity::Mailbox);
}

#[test]
fn input_queue_notifies_steer_subscribers() {
    let mut input_queue = InputQueue::new();
    let mut turn_state = TurnState::new();
    assert_eq!(input_queue.pending_activity(Some(&turn_state)), None);

    input_queue.steer(&mut turn_state, vec![user_input("steer")]);

    assert_eq!(input_queue.activity, InputQueueActivity::Steer);
}

#[test]
fn input_queue_reports_already_pending_steer() {
    let mut input_queue = InputQueue::new();
    let mut turn_state = TurnState::new();
    let passive_output = TurnInput::ResponseItem(ResponseItemEnvelope {
        item: HistoryItem {
            id: None,
            payload: None,
            body: HistoryBody::FunctionCallOutput {
                call_id: None,
                encoded: String::from("passive"),
            },
        },
        annotated: false,
    });
    turn_state.extend_pending_input(vec![passive_output]);
    assert_eq!(input_queue.pending_activity(Some(&turn_state)), None);
    input_queue.steer(&mut turn_state, vec![user_input("already pending")]);

    assert_eq!(
        input_queue.pending_activity(Some(&turn_state)),
        Some(InputQueueActivity::Steer)
    );
}

#[test]
fn input_queue_drains_mailbox_in_delivery_order() {
    let mut input_queue = InputQueue::new();
    let mail_one = make_mail("/root", "/root/worker", "one", false);
    let mail_two = make_mail("/root/worker", "/root", "two", true);

    input_queue.enqueue_mailbox_communication(mail_one.copy(), Default::default());
    input_queue.enqueue_mailbox_communication(mail_two.copy(), Default::default());

    assert_eq!(
        input_queue.drain_mailbox_input_items().0,
        vec![
            TurnInput::InterAgentCommunication(mail_one),
            TurnInput::InterAgentCommunication(mail_two)
        ]
    );
    assert!(!input_queue.has_pending_mailbox_items());
}

#[test]
fn input_queue_uses_unambiguous_trigger_parent_and_first_root() {
    let (parent, peer, root, root2) = (Some("a"), Some("b"), Some("r"), Some("s"));
    for (pending_mails, expected_parent_turn_id, expected_root_turn_id) in [
        (Vec::new(), None, None),
        (vec![(false, Some("q"), root)], None, None),
        (vec![(true, Some(""), root)], None, None),
        (vec![(true, Some("   "), root)], None, None),
        (vec![(true, None, root)], None, None),
        (vec![(true, parent, None)], parent, None),
        (vec![(true, parent, Some(""))], parent, None),
        (vec![(true, parent, root), (true, peer, root)], None, root),
        (vec![(true, parent, root), (true, peer, root2)], None, root),
        (vec![(true, parent, root), (true, None, root)], None, root),
        (
            vec![(true, parent, root), (true, parent, root)],
            parent,
            root,
        ),
        (
            vec![(false, Some("q"), root2), (true, parent, root)],
            parent,
            root,
        ),
    ] {
        let mut input_queue = InputQueue::new();
        for (trigger_turn, parent_turn_id, root_turn_id) in pending_mails {
            input_queue.enqueue_mailbox_communication(
                make_mail("/root", "/root", "task", trigger_turn),
                TurnStartOptions {
                    parent_turn_id: parent_turn_id.map(str::to_string),
                    root_turn_id: root_turn_id.map(str::to_string),
                    ..Default::default()
                },
            );
        }
        let (_, start_options) = input_queue.drain_mailbox_input_items();
        assert_eq!(
            start_options.parent_turn_id.as_deref(),
            expected_parent_turn_id
        );
        assert_eq!(start_options.root_turn_id.as_deref(), expected_root_turn_id);
    }
}

#[test]
fn input_queue_uses_latest_followup_choice_and_ignores_queue_only_mail() {
    for latest in [Some(CyberAccessProgram::Standard), None] {
        let mut input_queue = InputQueue::new();
        for (trigger_turn, program) in [
            (true, Some(CyberAccessProgram::DaybreakBlue)),
            (true, latest),
            (false, Some(CyberAccessProgram::DaybreakRed)),
        ] {
            input_queue.enqueue_mailbox_communication(
                make_mail("/root", "/root", "task", trigger_turn),
                TurnStartOptions {
                    cyber_access_program: program,
                    ..Default::default()
                },
            );
        }
        let (_, start_options) = input_queue.drain_mailbox_input_items();
        assert_eq!(start_options.cyber_access_program, latest);
    }
}

#[test]
fn input_queue_tracks_pending_trigger_turn_mail() {
    let mut input_queue = InputQueue::new();

    input_queue.enqueue_mailbox_communication(
        make_mail("/root", "/root/worker", "queued", false),
        Default::default(),
    );
    assert!(!input_queue.has_trigger_turn_mailbox_items());

    input_queue.enqueue_mailbox_communication(
        make_mail("/root", "/root/worker", "wake", true),
        Default::default(),
    );
    assert!(input_queue.has_trigger_turn_mailbox_items());
}

#[test]
fn mailbox_predicate_extraction_preserves_unrelated_order() {
    let mut input_queue = InputQueue::new();
    for (author, content) in [
        ("/root/ordinary", "before"),
        ("/root/spawn_a", "extract one"),
        ("/root/ordinary", "after"),
        ("/root/spawn_a", "extract two"),
    ] {
        input_queue.enqueue_mailbox_communication(
            make_mail(author, "/root", content, false),
            TurnStartOptions::default(),
        );
    }

    let extracted = input_queue.extract_mailbox_communications(&paths(&["/root/spawn_a"]));
    assert_eq!(
        extracted
            .iter()
            .map(|mail| mail.content.as_str())
            .collect::<Vec<_>>(),
        vec!["extract one", "extract two"]
    );
    let retained = input_queue.drain_mailbox_input_items().0;
    assert_eq!(
        retained
            .iter()
            .map(|item| match item {
                TurnInput::InterAgentCommunication(mail) => mail.content.as_str(),
                _ => panic!("expected mailbox communication"),
            })
            .collect::<Vec<_>>(),
        vec!["before", "after"]
    );
}

#[test]
fn mailbox_submission_waits_for_matching_delivery_only() {
    let mut input_queue = InputQueue::new();
    let mut tracker = MailboxSubmissionTracker::new();
    let branch = "/root/spawn_a/worker";
    let unrelated = "/root/ordinary";
    tracker.insert("branch-submission".to_string(), branch.to_string());
    tracker.insert("unrelated-submission".to_string(), unrelated.to_string());
    assert!(tracker.has_matching(&paths(&[branch])));

    input_queue.enqueue_mailbox_communication(
        make_mail(branch, "/root", "late branch message", false),
        TurnStartOptions::default(),
    );
    tracker.remove("branch-submission", branch);
    assert!(!tracker.has_matching(&paths(&[branch])));
    assert!(tracker.has_matching(&paths(&[unrelated])));
    assert_eq!(
        input_queue
            .extract_mailbox_communications(&paths(&[branch]))
            .len(),
        1
    );
    assert!(!input_queue.has_pending_mailbox_items());

    tracker.remove("unrelated-submission", unrelated);
    assert!(!tracker.has_matching(&paths(&[unrelated])));
}

#[test]
fn cancelling_mailbox_subtree_tombstones_late_delivery() {
    let mut tracker = MailboxSubmissionTracker::new();
    let transaction_root = paths(&["/root/spawn_a"]);
    let descendant = "/root/spawn_a/worker/deep";
    let unrelated = "/root/spawn_b";

    tracker.insert("descendant".to_string(), descendant.to_string());
    tracker.insert("unrelated".to_string(), unrelated.to_string());
    assert!(tracker.has_matching(&paths(&[descendant])));

    let mut cancellation = MailboxSubmissionCancellation::new(&transaction_root);
    cancellation.activate(&mut tracker);
    assert!(!tracker.has_matching(&paths(&[descendant])));
    assert!(tracker.take_cancelled("descendant", descendant));
    assert!(!tracker.take_cancelled("unrelated", unrelated));

    tracker.insert("late".to_string(), descendant.to_string());
    assert!(tracker.take_cancelled("late", descendant));

    cancellation.release(&mut tracker);
    tracker.insert("reused".to_string(), descendant.to_string());
    assert!(!tracker.take_cancelled("reused", descendant));
    tracker.remove("reused", descendant);
    tracker.remove("unrelated", unrelated);
    assert!(!tracker.has_matching(&paths(&["/root"])));
}

#[test]
fn overlapping_cancellations_are_counted() {
    let mut tracker = MailboxSubmissionTracker::new();
    let roots = paths(&["/root/a", "/root/a"]);
    assert_eq!(deduplicated_paths(&roots), paths(&["/root/a"]));
    let mut first = MailboxSubmissionCancellation::new(&roots);
    let mut second = MailboxSubmissionCancellation::new(&roots);
    first.activate(&mut tracker);
    first.activate(&mut tracker);
    second.activate(&mut tracker);
    first.release(&mut tracker);
    tracker.insert("still".to_string(), "/root/a/b".to_string());
    assert!(tracker.take_cancelled("still", "/root/a/b"));
    second.release(&mut tracker);
    tracker.insert("free".to_string(), "/root/a/b".to_string());
    assert!(!tracker.take_cancelled("free", "/root/a/b"));
    assert!(tracker.revision() > 0);
}

#[test]
fn mail_waits_while_its_delivery_is_deferred() {
    let mut input_queue = InputQueue::new();
    let mut turn_state = TurnState::new();
    input_queue.enqueue_mailbox_communication(
        make_mail("/root", "/root/worker", "one", true),
        Default::default(),
    );
    assert!(input_queue.has_pending_input(Some(&turn_state)));
    assert_eq!(
        input_queue.pending_activity(Some(&turn_state)),
        Some(InputQueueActivity::Mailbox)
    );
    turn_state.defer_mailbox_delivery_to_next_turn();
    assert!(!input_queue.has_pending_input(Some(&turn_state)));
    assert_eq!(input_queue.get_pending_input(Some(&mut turn_state)).0, vec![]);
    input_queue.steer(&mut turn_state, vec![user_input("go on")]);
    let (pending, _) = input_queue.get_pending_input(Some(&mut turn_state));
    assert_eq!(pending.len(), 2);
    assert_eq!(pending[0], user_input("go on"));
    assert!(!turn_state.has_pending_input());
    assert!(!input_queue.has_pending_input(None));
}

#[test]
fn a_turn_takes_over_a_root_only_once() {
    let options = TurnStartOptions {
        root_turn_id: Some(String::from("r")),
        ..Default::default()
    };
    assert_eq!(adopted_root(&None, &options), Some(String::from("r")));
    assert_eq!(adopted_root(&Some(String::from("own")), &options), None);
    assert_eq!(adopted_root(&None, &TurnStartOptions::default()), None);
}

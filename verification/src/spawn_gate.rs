//! The question that a failed spawn batch puts to the user.

use crate::text::{decimal, from_chars, same_text, to_chars, trim};
use vstd::prelude::*;

verus! {

use crate::spawn_tasks::{first_chars, lines};
use crate::text::{decimal_text, trimmed};

pub const FAILURE_ACTION_QUESTION_ID: &'static str = "spine_spawn_failure_action";

pub const MAX_FAILURE_GUIDANCE_CHARS: usize = 4_096;

/// Whether an agent's failed branches are put to the user: only the root
/// agent's are. An agent without a path is the root agent.
pub open spec fn asks_user(parent_path: Option<Seq<char>>, root_path: Seq<char>) -> bool {
    match parent_path {
        Some(path) => path == root_path,
        None => true,
    }
}

/// Whether the failed branches of the agent at a path are put to the user.
pub fn failure_gate_enabled(parent_path: Option<&str>, root_path: &str) -> (r: bool)
    ensures
        r == (match parent_path {
            Some(path) => path@ == root_path@,
            None => true,
        }),
{
    match parent_path {
        Some(path) => same_text(path, root_path),
        None => true,
    }
}

#[derive(Clone, Copy, Debug, PartialEq, Eq, Structural)]
pub enum SpawnFailureAction {
    Continue,
    Retry,
    Abandon,
}

#[derive(Debug, PartialEq, Eq)]
pub struct SpawnFailureDecision {
    pub action: SpawnFailureAction,
    pub note: Option<String>,
}

/// The answers to one question.
#[derive(Debug)]
pub struct QuestionAnswer {
    pub question_id: String,
    pub answers: Vec<String>,
}

/// One of the choices that the user is offered.
#[derive(Debug)]
pub struct GateOption {
    pub label: &'static str,
    pub description: &'static str,
}

/// The question that the user is asked.
#[derive(Debug)]
pub struct GateQuestion {
    pub id: &'static str,
    pub header: &'static str,
    pub question: String,
    pub options: Vec<GateOption>,
}

/// The question about a batch in which some branches failed.
pub fn failure_question(failed_count: usize, total_count: usize) -> (r: GateQuestion)
    ensures
        r.id@ == FAILURE_ACTION_QUESTION_ID@,
        r.header@ == "Spawn failed"@,
        r.question@ == decimal_text(failed_count as nat) + " of "@ + decimal_text(
            total_count as nat,
        ) + " spawned branches failed. Choose what to do with the failed branches."@,
        r.options@.len() == 3,
        r.options@[0].label@ == "Continue"@,
        r.options@[0].description@ == "Resume with each failed branch's existing context."@,
        r.options@[1].label@ == "Retry"@,
        r.options@[1].description@ == "Start each failed branch again in a new agent."@,
        r.options@[2].label@ == "Abandon"@,
        r.options@[2].description@ == "Return the failures to the parent agent."@,
{
    let mut question = decimal(failed_count as u64);
    question.append(" of ");
    question.append(decimal(total_count as u64).as_str());
    question.append(" spawned branches failed. Choose what to do with the failed branches.");
    let mut options: Vec<GateOption> = Vec::new();
    options.push(
        GateOption {
            label: "Continue",
            description: "Resume with each failed branch's existing context.",
        },
    );
    options.push(
        GateOption { label: "Retry", description: "Start each failed branch again in a new agent." },
    );
    options.push(
        GateOption { label: "Abandon", description: "Return the failures to the parent agent." },
    );
    GateQuestion { id: FAILURE_ACTION_QUESTION_ID, header: "Spawn failed", question, options }
}

pub open spec fn action_of(label: Seq<char>) -> Option<SpawnFailureAction> {
    if label == "Continue"@ {
        Some(SpawnFailureAction::Continue)
    } else if label == "Retry"@ {
        Some(SpawnFailureAction::Retry)
    } else if label == "Abandon"@ {
        Some(SpawnFailureAction::Abandon)
    } else {
        None
    }
}

/// The prefix that marks an answer as a note.
pub open spec fn note_prefix() -> Seq<char> {
    "user_note: "@
}

pub open spec fn is_note(answer: Seq<char>) -> bool {
    answer.len() >= note_prefix().len() && answer.take(note_prefix().len() as int) == note_prefix()
}

/// What a note says, white space around it aside.
pub open spec fn note_text(answer: Seq<char>) -> Seq<char> {
    trimmed(answer.skip(note_prefix().len() as int))
}

/// The notes among the answers that say something, in order.
pub open spec fn notes(answers: Seq<String>) -> Seq<Seq<char>>
    decreases answers.len(),
{
    if answers.len() == 0 {
        Seq::empty()
    } else {
        let before = notes(answers.drop_last());
        let text = note_text(answers.last()@);
        if text.len() == 0 {
            before
        } else {
            before.push(text)
        }
    }
}

/// The decision that the answers amount to: an action, and the notes below each
/// other, cut to the guidance limit. Anything malformed is no decision.
pub open spec fn decision(response: Seq<QuestionAnswer>) -> Option<
    (SpawnFailureAction, Option<Seq<char>>),
> {
    if response.len() != 1 || response[0].question_id@ != FAILURE_ACTION_QUESTION_ID@ {
        None
    } else {
        let answers = response[0].answers@;
        if answers.len() == 0 {
            None
        } else {
            match action_of(answers[0]@) {
                None => None,
                Some(action) => if exists|i: int|
                    1 <= i < answers.len() && !is_note((#[trigger] answers[i])@) {
                    None
                } else {
                    let note = lines(notes(answers.skip(1)));
                    Some(
                        (
                            action,
                            if note.len() == 0 {
                                None
                            } else {
                                Some(first_chars(note, MAX_FAILURE_GUIDANCE_CHARS as nat))
                            },
                        ),
                    )
                },
            }
        }
    }
}

/// The text after the note prefix, where the answer has it.
fn strip_note(answer: &str) -> (r: Option<String>)
    ensures
        match r {
            Some(text) => is_note(answer@) && text@ == answer@.skip(note_prefix().len() as int),
            None => !is_note(answer@),
        },
{
    let chars = to_chars(answer);
    let prefix = to_chars("user_note: ");
    if chars.len() < prefix.len() {
        return None;
    }
    let mut i: usize = 0;
    while i < prefix.len()
        invariant
            i <= prefix@.len() <= chars@.len(),
            chars@ == answer@,
            prefix@ == note_prefix(),
            forall|j: int| 0 <= j < i ==> chars@[j] == prefix@[j],
        decreases prefix@.len() - i,
    {
        if chars[i] != prefix[i] {
            assert(answer@.take(note_prefix().len() as int)[i as int] != note_prefix()[i as int]);
            return None;
        }
        i = i + 1;
    }
    proof {
        assert(answer@.take(note_prefix().len() as int) =~= note_prefix());
        assert(answer@.subrange(prefix@.len() as int, chars@.len() as int) =~= answer@.skip(
            note_prefix().len() as int,
        ));
    }
    Some(from_chars(&chars, prefix.len(), chars.len()))
}

fn take_chars(text: &str, count: usize) -> (r: String)
    ensures
        r@ == first_chars(text@, count as nat),
{
    let chars = to_chars(text);
    let end = if chars.len() <= count {
        chars.len()
    } else {
        count
    };
    assert(chars@.subrange(0, end as int) =~= first_chars(text@, count as nat));
    from_chars(&chars, 0, end)
}

/// The notes of the answers after the first, below each other; nothing where
/// one of them is no note.
fn joined_notes(answers: &Vec<String>) -> (r: Option<String>)
    requires
        answers@.len() > 0,
    ensures
        match r {
            Some(text) => text@ == lines(notes(answers@.skip(1))) && forall|i: int|
                1 <= i < answers@.len() ==> is_note((#[trigger] answers@[i])@),
            None => exists|i: int| 1 <= i < answers@.len() && !is_note((#[trigger] answers@[i])@),
        },
{
    let ghost rest = answers@.skip(1);
    let mut joined = String::new();
    let mut count: usize = 0;
    let mut i: usize = 1;
    proof {
        assert(rest.take(0) =~= Seq::empty());
        assert(joined@ =~= lines(Seq::<Seq<char>>::empty()));
    }
    while i < answers.len()
        invariant
            1 <= i <= answers@.len(),
            rest == answers@.skip(1),
            count < i,
            count == notes(rest.take(i - 1)).len(),
            joined@ == lines(notes(rest.take(i - 1))),
            forall|k: int| 1 <= k < i ==> is_note((#[trigger] answers@[k])@),
        decreases answers@.len() - i,
    {
        let note = match strip_note(answers[i].as_str()) {
            Some(note) => note,
            None => {
                return None;
            },
        };
        let ghost before = notes(rest.take(i - 1));
        proof {
            let upto = rest.take(i as int);
            assert(upto.drop_last() =~= rest.take(i - 1));
            assert(upto.last() == answers@[i as int]);
        }
        let text = trim(note.as_str());
        if !text.as_str().is_empty() {
            proof {
                let after = before.push(text@);
                assert(after.drop_last() =~= before);
                if before.len() > 0 {
                    assert(lines(after) == lines(before) + "\n"@ + text@);
                } else {
                    assert(lines(before) + text@ =~= lines(after));
                }
            }
            if count > 0 {
                joined.append("\n");
            }
            joined.append(text.as_str());
            count = count + 1;
        }
        i = i + 1;
    }
    assert(rest.take(i - 1) =~= rest);
    Some(joined)
}

/// Reads the user's answers.
pub fn parse_failure_decision(response: &Vec<QuestionAnswer>) -> (r: Option<SpawnFailureDecision>)
    ensures
        (match r {
            Some(made) => Some(
                (
                    made.action,
                    match made.note {
                        Some(note) => Some(note@),
                        None => None,
                    },
                ),
            ),
            None => None,
        }) == decision(response@),
{
    if response.len() != 1 {
        return None;
    }
    if !same_text(response[0].question_id.as_str(), FAILURE_ACTION_QUESTION_ID) {
        return None;
    }
    let answers = &response[0].answers;
    if answers.len() == 0 {
        return None;
    }
    let label = answers[0].as_str();
    let action = if same_text(label, "Continue") {
        SpawnFailureAction::Continue
    } else if same_text(label, "Retry") {
        SpawnFailureAction::Retry
    } else if same_text(label, "Abandon") {
        SpawnFailureAction::Abandon
    } else {
        return None;
    };
    let note = match joined_notes(answers) {
        Some(note) => note,
        None => {
            return None;
        },
    };
    let note = if note.as_str().is_empty() {
        None
    } else {
        Some(take_chars(note.as_str(), MAX_FAILURE_GUIDANCE_CHARS))
    };
    Some(SpawnFailureDecision { action, note })
}

/// A message, with the user's guidance below it.
pub open spec fn guided(message: Seq<char>, guidance: Option<Seq<char>>) -> Seq<char> {
    match guidance {
        Some(guidance) => message + "\n\nAdditional user guidance:\n"@ + guidance,
        None => message,
    }
}

pub fn append_failure_guidance(message: String, additional_guidance: Option<&str>) -> (r: String)
    ensures
        r@ == guided(
            message@,
            match additional_guidance {
                Some(text) => Some(text@),
                None => None,
            },
        ),
{
    let mut message = message;
    if let Some(guidance) = additional_guidance {
        message.append("\n\nAdditional user guidance:\n");
        message.append(guidance);
    }
    message
}

} // verus!

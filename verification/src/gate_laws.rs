//! What the user's answer about failed branches amounts to.

use vstd::prelude::*;

verus! {

use crate::spawn_gate::{
    asks_user, decision, guided, is_note, note_text, notes, QuestionAnswer, SpawnFailureAction,
};
use crate::spawn_tasks::lines;
use crate::text::{blank, trimmed, trimmed_is_empty_where_blank};
use crate::text_laws::every_line_is_there;

/// Only the agent at the root's own path asks, or one without a path.
pub proof fn who_asks(path: Seq<char>, root_path: Seq<char>)
    ensures
        asks_user(None, root_path),
        asks_user(Some(path), root_path) <==> path == root_path,
{
}

/// Whether an answer is a note: it begins with `user_note: `.
pub open spec fn begins_as_note(answer: Seq<char>) -> bool {
    answer.len() >= 11 && answer.take(11) == seq![
        'u',
        's',
        'e',
        'r',
        '_',
        'n',
        'o',
        't',
        'e',
        ':',
        ' ',
    ]
}

proof fn lemma_note(answer: Seq<char>)
    ensures
        is_note(answer) <==> begins_as_note(answer),
        begins_as_note(answer) ==> note_text(answer) == trimmed(answer.skip(11)),
{
    reveal_strlit("user_note: ");
    assert("user_note: "@ =~= seq!['u', 's', 'e', 'r', '_', 'n', 'o', 't', 'e', ':', ' ']);
}

/// A decision is made exactly where the one question was answered with one of
/// the three actions, and everything after it is a note; the decision is that
/// action.
pub proof fn what_is_a_decision(response: Seq<QuestionAnswer>)
    ensures
        decision(response) is Some <==> response.len() == 1 && response[0].question_id@
            == "spine_spawn_failure_action"@ && response[0].answers@.len() > 0 && (
        response[0].answers@[0]@ == "Continue"@ || response[0].answers@[0]@ == "Retry"@
            || response[0].answers@[0]@ == "Abandon"@) && forall|i: int|
            1 <= i < response[0].answers@.len() ==> begins_as_note(
                (#[trigger] response[0].answers@[i])@,
            ),
        decision(response) matches Some(made) ==> {
            let answer = response[0].answers@[0]@;
            &&& answer == "Continue"@ <==> made.0 == SpawnFailureAction::Continue
            &&& answer == "Retry"@ <==> made.0 == SpawnFailureAction::Retry
            &&& answer == "Abandon"@ <==> made.0 == SpawnFailureAction::Abandon
        },
{
    reveal_strlit("Continue");
    reveal_strlit("Retry");
    reveal_strlit("Abandon");
    assert("Continue"@[0] == 'C' && "Retry"@[0] == 'R' && "Abandon"@[0] == 'A');
    if response.len() == 1 {
        let answers = response[0].answers@;
        assert forall|i: int| 0 <= i < answers.len() implies is_note((#[trigger] answers[i])@)
            == begins_as_note(answers[i]@) by {
            lemma_note(answers[i]@);
        }
    }
}

/// Every note that says something stands in the guidance on lines of its own, in
/// order; blank ones are left out.
pub proof fn notes_that_say_something_are_kept(answers: Seq<String>, i: int)
    requires
        forall|k: int| 0 <= k < answers.len() ==> begins_as_note((#[trigger] answers[k])@),
    ensures
        0 <= i < answers.len() && !blank(answers[i]@.skip(11)) ==> notes(answers).contains(
            trimmed(answers[i]@.skip(11)),
        ),
        notes(answers).len() == answers.filter(
            |a: String| !blank(a@.skip(11)),
        ).len(),
        forall|k: int|
            0 <= k < notes(answers).len() ==> #[trigger] notes(answers)[k] == trimmed(
                answers.filter(|a: String| !blank(a@.skip(11)))[k]@.skip(11),
            ),
    decreases answers.len(),
{
    reveal(Seq::filter);
    if answers.len() > 0 {
        let rest = answers.drop_last();
        assert forall|k: int| 0 <= k < rest.len() implies begins_as_note((#[trigger] rest[k])@) by {
            assert(rest[k] == answers[k]);
        }
        notes_that_say_something_are_kept(rest, i);
        let last = answers[answers.len() - 1]@;
        assert(answers.last()@ == last);
        lemma_note(last);
        trimmed_is_empty_where_blank(last.skip(11));
        let before = notes(rest);
        let said = answers.filter(|a: String| !blank(a@.skip(11)));
        let said_before = rest.filter(|a: String| !blank(a@.skip(11)));
        assert(said == if !blank(last.skip(11)) {
            said_before.push(answers.last())
        } else {
            said_before
        });
        if 0 <= i < answers.len() && !blank(answers[i]@.skip(11)) {
            let text = trimmed(answers[i]@.skip(11));
            if i < rest.len() {
                assert(rest[i] == answers[i]);
                let k = choose|k: int| 0 <= k < before.len() && before[k] == text;
                assert(notes(answers)[k] == text);
            } else {
                assert(notes(answers)[before.len() as int] == text);
            }
        }
        assert forall|k: int| 0 <= k < notes(answers).len() implies #[trigger] notes(answers)[k]
            == trimmed(said[k]@.skip(11)) by {
            if k < before.len() {
                assert(notes(answers)[k] == before[k]);
            }
        }
    }
}

/// The guidance of a decision is the notes below each other, cut to the first
/// 4096 characters; without a note that says something there is none.
pub proof fn guidance_is_the_notes(response: Seq<QuestionAnswer>)
    requires
        decision(response) is Some,
    ensures
        ({
            let guidance = decision(response)->Some_0.1;
            let said = notes(response[0].answers@.skip(1));
            let all = lines(said);
            &&& guidance is None <==> said.len() == 0
            &&& guidance matches Some(text) ==> text.len() <= 4096 && text.is_prefix_of(all) && (
            all.len() <= 4096 ==> text == all) && (all.len() > 4096 ==> text.len() == 4096)
        }),
{
    let answers = response[0].answers@.skip(1);
    let said = notes(answers);
    let all = lines(said);
    lemma_notes_say_something(answers);
    if said.len() > 0 {
        every_line_is_there(said, 0);
        assert(said[0].len() > 0);
        assert(all.len() > 0);
    }
    if all.len() > 4096 {
        assert(all.take(4096).is_prefix_of(all));
    }
}

proof fn lemma_notes_say_something(answers: Seq<String>)
    ensures
        forall|k: int| 0 <= k < notes(answers).len() ==> (#[trigger] notes(answers)[k]).len() > 0,
    decreases answers.len(),
{
    if answers.len() > 0 {
        lemma_notes_say_something(answers.drop_last());
        let before = notes(answers.drop_last());
        assert forall|k: int| 0 <= k < notes(answers).len() implies (#[trigger] notes(
            answers,
        )[k]).len() > 0 by {
            if k < before.len() {
                assert(notes(answers)[k] == before[k]);
            }
        }
    }
}

/// A guided message begins with the message and ends with the guidance; without
/// guidance it is the message.
pub proof fn guidance_stands_below_the_message(message: Seq<char>, guidance: Seq<char>)
    ensures
        guided(message, None) == message,
        message.is_prefix_of(guided(message, Some(guidance))),
        guided(message, Some(guidance)).len() >= message.len() + guidance.len(),
        guided(message, Some(guidance)).skip(
            guided(message, Some(guidance)).len() - guidance.len(),
        ) == guidance,
        guided(message, Some(guidance)) == message + "\n\nAdditional user guidance:\n"@ + guidance,
{
    let all = guided(message, Some(guidance));
    assert(all.skip(all.len() - guidance.len()) =~= guidance);
}

} // verus!

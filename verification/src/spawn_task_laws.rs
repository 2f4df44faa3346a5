//! What a spawn request promises its branches.

use vstd::prelude::*;

verus! {

use crate::spawn::SpawnTask;
use crate::spawn::{ENVELOPE_CONTRACT, ENVELOPE_OPENING, ENVELOPE_PEERS};
use crate::spawn_tasks::{
    acceptable, child_wire_bytes, distinct_summaries, duplicate_text, envelope, inputs_fit,
    oversized_input_text, repeats, in_subtree, in_subtrees, json_char_len, json_len, lines, path_letters,
    lists_started, refusal, request_size, roster, start_slot, started, task_limit, task_name,
    LiveBranch, RequestValidation,
};
use crate::fragments::SpawnOutcome;
use crate::text::{decimal_text, trimmed};
use crate::text_laws::{a_number_reads_back, every_line_is_there, numbers_are_told_apart};

/// Every task of the call other than the branch's own has its line in the
/// branch's roster.
pub proof fn every_peer_is_listed(tasks: Seq<SpawnTask>, identity: Seq<char>, i: int)
    requires
        0 <= i < tasks.len(),
        trimmed(tasks[i].summary@) != identity,
    ensures
        roster(tasks, identity).contains(seq!['-', ' '] + trimmed(tasks[i].summary@)),
    decreases tasks.len(),
{
    reveal_strlit("- ");
    assert("- "@ =~= seq!['-', ' ']);
    let rest = tasks.drop_last();
    let line = seq!['-', ' '] + trimmed(tasks[i].summary@);
    let before = roster(rest, identity);
    if i < tasks.len() - 1 {
        assert(rest[i] == tasks[i]);
        every_peer_is_listed(rest, identity, i);
        let k = choose|k: int| 0 <= k < before.len() && before[k] == line;
        assert(roster(tasks, identity)[k] == line);
    } else {
        assert(roster(tasks, identity)[before.len() as int] == line);
    }
}

/// A roster lists nobody but the peers, each in one line and in task order: the
/// `k`th line is that of the `k`th task whose summary is not the branch's own.
pub proof fn the_roster_lists_only_peers(tasks: Seq<SpawnTask>, identity: Seq<char>)
    ensures
        ({
            let peers = tasks.filter(|t: SpawnTask| trimmed(t.summary@) != identity);
            &&& roster(tasks, identity).len() == peers.len()
            &&& forall|k: int|
                0 <= k < peers.len() ==> #[trigger] roster(tasks, identity)[k] == seq!['-', ' ']
                    + trimmed(peers[k].summary@)
        }),
    decreases tasks.len(),
{
    reveal_strlit("- ");
    assert("- "@ =~= seq!['-', ' ']);
    reveal(Seq::filter);
    if tasks.len() > 0 {
        the_roster_lists_only_peers(tasks.drop_last(), identity);
        let rest = tasks.drop_last().filter(|t: SpawnTask| trimmed(t.summary@) != identity);
        let peers = tasks.filter(|t: SpawnTask| trimmed(t.summary@) != identity);
        assert(peers == if trimmed(tasks.last().summary@) != identity {
            rest.push(tasks.last())
        } else {
            rest
        });
        assert forall|k: int| 0 <= k < peers.len() implies #[trigger] roster(tasks, identity)[k]
            == seq!['-', ' '] + trimmed(peers[k].summary@) by {
            if k < rest.len() {
                assert(roster(tasks, identity)[k] == roster(tasks.drop_last(), identity)[k]);
            }
        }
    }
}

/// Whether no two tasks have the same summary, white space around it aside.
pub open spec fn told_apart(tasks: Seq<SpawnTask>) -> bool {
    forall|i: int, j: int|
        0 <= i < j < tasks.len() ==> trimmed((#[trigger] tasks[i]).summary@) != trimmed(
            (#[trigger] tasks[j]).summary@,
        )
}

/// With summaries that differ, each branch has all the other tasks as peers.
pub proof fn all_others_are_peers(tasks: Seq<SpawnTask>, i: int)
    requires
        told_apart(tasks),
        0 <= i < tasks.len(),
    ensures
        roster(tasks, trimmed(tasks[i].summary@)).len() == tasks.len() - 1,
    decreases tasks.len(),
{
    let identity = trimmed(tasks[i].summary@);
    let rest = tasks.drop_last();
    assert(told_apart(rest)) by {
        assert forall|a: int, b: int| 0 <= a < b < rest.len() implies trimmed(
            (#[trigger] rest[a]).summary@,
        ) != trimmed((#[trigger] rest[b]).summary@) by {
            assert(rest[a] == tasks[a] && rest[b] == tasks[b]);
        }
    }
    if i < tasks.len() - 1 {
        assert(rest[i] == tasks[i]);
        all_others_are_peers(rest, i);
        assert(trimmed(tasks[i].summary@) != trimmed(tasks[tasks.len() - 1].summary@));
    } else {
        lemma_nobody_else(rest, identity);
    }
}

proof fn lemma_nobody_else(tasks: Seq<SpawnTask>, identity: Seq<char>)
    requires
        forall|i: int| 0 <= i < tasks.len() ==> trimmed((#[trigger] tasks[i]).summary@) != identity,
    ensures
        roster(tasks, identity).len() == tasks.len(),
    decreases tasks.len(),
{
    if tasks.len() > 0 {
        let rest = tasks.drop_last();
        assert forall|i: int| 0 <= i < rest.len() implies trimmed((#[trigger] rest[i]).summary@)
            != identity by {
            assert(rest[i] == tasks[i]);
        }
        lemma_nobody_else(rest, identity);
        assert(trimmed(tasks[tasks.len() - 1].summary@) != identity);
    }
}

/// What a branch is told opens with who it is, ends with its whole assignment as
/// it was given, and names every peer on a line of its own.
pub proof fn a_branch_is_told_its_part(task: SpawnTask, tasks: Seq<SpawnTask>, i: int)
    ensures
        ({
            let told = envelope(task, tasks);
            let opening = ENVELOPE_OPENING@ + trimmed(task.summary@) + ENVELOPE_PEERS@;
            let close = ENVELOPE_CONTRACT@ + task.prompt@;
            let line = seq!['-', ' '] + trimmed(tasks[i].summary@);
            &&& told.len() >= opening.len() + close.len()
            &&& told.take(opening.len() as int) == opening
            &&& told.skip(told.len() - close.len()) == close
            &&& told.skip(told.len() - task.prompt@.len()) == task.prompt@
            &&& 0 <= i < tasks.len() && trimmed(tasks[i].summary@) != trimmed(task.summary@)
                ==> exists|above: Seq<char>, below: Seq<char>|
                told == #[trigger] (opening + above + line + below + close) && (above.len() == 0 || above.last() == '\n') && (below.len()
                    == 0 || below[0] == '\n')
        }),
{
    let identity = trimmed(task.summary@);
    let told = envelope(task, tasks);
    let opening = ENVELOPE_OPENING@ + identity + ENVELOPE_PEERS@;
    let close = ENVELOPE_CONTRACT@ + task.prompt@;
    let list = roster(tasks, identity);
    assert(told =~= opening + lines(list) + close);
    assert(told.take(opening.len() as int) =~= opening);
    assert(told.skip(told.len() - close.len()) =~= close);
    assert(told.skip(told.len() - task.prompt@.len()) =~= task.prompt@);
    if 0 <= i < tasks.len() && trimmed(tasks[i].summary@) != identity {
        every_peer_is_listed(tasks, identity, i);
        let line = seq!['-', ' '] + trimmed(tasks[i].summary@);
        let k = choose|k: int| 0 <= k < list.len() && list[k] == line;
        every_line_is_there(list, k);
        let (above, below) = choose|above: Seq<char>, below: Seq<char>|
            lines(list) == #[trigger] (above + list[k] + below) && (above.len() == 0
                || above.last() == '\n') && (below.len() == 0 || below[0] == '\n');
        assert(told =~= opening + above + line + below + close);
    }
}

/// A request is acceptable exactly where its summaries differ and no branch's
/// first input is over the provider limit.
pub proof fn what_is_acceptable(tasks: Seq<SpawnTask>, empty_item_bytes: nat)
    ensures
        acceptable(tasks, empty_item_bytes) <==> told_apart(tasks) && forall|i: int|
            0 <= i < tasks.len() ==> empty_item_bytes + json_len(
                envelope(#[trigger] tasks[i], tasks),
            ) <= 9000,
{
    if acceptable(tasks, empty_item_bytes) {
        assert forall|i: int, j: int| 0 <= i < j < tasks.len() implies trimmed(
            (#[trigger] tasks[i]).summary@,
        ) != trimmed((#[trigger] tasks[j]).summary@) by {
            assert(!crate::spawn_tasks::repeats(tasks, j));
        }
    }
}

/// A request asks for as many branches as it has tasks, and only an acceptable
/// one asks for any.
pub proof fn a_request_asks_for_its_tasks(
    validated: Result<RequestValidation, String>,
    empty_item_bytes: nat,
)
    ensures
        request_size(validated, empty_item_bytes) is Some <==> (validated matches Ok(
            RequestValidation::Spawn(tasks),
        ) && acceptable(tasks@, empty_item_bytes)),
        validated matches Ok(RequestValidation::Spawn(tasks)) ==> (request_size(
            validated,
            empty_item_bytes,
        ) matches Some(n) ==> n == tasks@.len()),
{
    if let Ok(RequestValidation::Spawn(tasks)) = validated {
        assert(tasks@.len() == tasks.len());
    }
}

/// Every character takes room in a JSON text, never less than in UTF-8, and
/// quotes, backslashes and control characters take more.
pub proof fn escapes_take_room(c: char)
    ensures
        1 <= json_char_len(c) <= 6,
        c == '"' || c == '\\' || (c as u32) < 32 ==> json_char_len(c) >= 2,
        c as u32 >= 32 && (c as u32) < 128 && c != '"' && c != '\\' ==> json_char_len(c) == 1,
        128 <= c as u32 && (c as u32) < 0x800 ==> json_char_len(c) == 2,
        0x800 <= c as u32 && (c as u32) < 0x10000 ==> json_char_len(c) == 3,
        0x10000 <= c as u32 ==> json_char_len(c) == 4,
        c == '\n' || c == '\t' || c == '\r' || c == '\u{8}' || c == '\u{c}' ==> json_char_len(c)
            == 2,
        (c as u32) < 32 && !(c == '\n' || c == '\t' || c == '\r' || c == '\u{8}' || c == '\u{c}')
            ==> json_char_len(c) == 6,
{
}

/// The size of a JSON text is that of its parts.
pub proof fn json_sizes_add_up(a: Seq<char>, b: Seq<char>)
    ensures
        json_len(a + b) == json_len(a) + json_len(b),
        a.len() == 1 ==> json_len(a) == json_char_len(a[0]),
        json_len(a) >= a.len(),
    decreases b.len(), a.len(),
{
    if b.len() == 0 {
        assert(a + b =~= a);
        if a.len() > 0 {
            json_sizes_add_up(a.drop_last(), Seq::empty());
            if a.len() == 1 {
                assert(a.drop_last() =~= Seq::empty());
            }
        }
    } else {
        json_sizes_add_up(a, b.drop_last());
        assert((a + b).drop_last() =~= a + b.drop_last());
        assert((a + b).last() == b.last());
    }
}

/// No more tasks than the configuration allows, and together with the branch
/// that asks no more than may run at once; any fewer are accepted.
pub proof fn the_task_limit_is_the_smaller(
    tasks: nat,
    max_concurrent_threads: nat,
    max_spawn_tasks: nat,
)
    ensures
        tasks <= task_limit(max_concurrent_threads, max_spawn_tasks) <==> tasks <= max_spawn_tasks
            && (tasks + 1 <= max_concurrent_threads || tasks == 0),
{
}

proof fn lemma_path_letters(s: Seq<char>)
    ensures
        forall|i: int|
            0 <= i < path_letters(s).len() ==> '0' <= #[trigger] path_letters(s)[i] <= '9' || 'a'
                <= path_letters(s)[i] <= 'z',
    decreases s.len(),
{
    if s.len() > 0 {
        lemma_path_letters(s.drop_last());
        let c = s.last();
        if 'A' <= c <= 'Z' {
            assert((c as u32 + 32) as char as u32 == c as u32 + 32);
        }
        let rest = path_letters(s.drop_last());
        assert forall|i: int| 0 <= i < path_letters(s).len() implies '0' <= #[trigger] path_letters(
            s,
        )[i] <= '9' || 'a' <= path_letters(s)[i] <= 'z' by {
            if i < rest.len() {
                assert(path_letters(s)[i] == rest[i]);
            }
        }
    }
}

/// The letters of a path are the text's own letters and digits, in order: lower
/// case ones and digits stay, upper case ones become lower case, and anything
/// else is left out.
pub proof fn letters_and_digits_stay(s: Seq<char>, c: char)
    ensures
        'a' <= c <= 'z' || '0' <= c <= '9' ==> path_letters(s.push(c)) == path_letters(s).push(c),
        'A' <= c <= 'Z' ==> path_letters(s.push(c)).len() == path_letters(s).len() + 1
            && path_letters(s.push(c)).drop_last() == path_letters(s) && path_letters(
            s.push(c),
        ).last() as u32 == c as u32 + 32,
        !('a' <= c <= 'z' || '0' <= c <= '9' || 'A' <= c <= 'Z') ==> path_letters(s.push(c))
            == path_letters(s),
        path_letters(Seq::empty()).len() == 0,
{
    assert(s.push(c).drop_last() =~= s);
    if 'A' <= c <= 'Z' {
        assert((c as u32 + 32) as char as u32 == c as u32 + 32);
        assert(path_letters(s.push(c)).drop_last() =~= path_letters(s));
    }
}

/// A child's name is a path-safe one: `spawn_`, up to twenty letters of the
/// call, and the ordinal, all of them lower case letters, digits and `_`.
pub proof fn names_are_path_safe(call_id: Seq<char>, ordinal: nat)
    ensures
        forall|i: int|
            0 <= i < task_name(call_id, ordinal).len() ==> {
                let c = #[trigger] task_name(call_id, ordinal)[i];
                '0' <= c <= '9' || 'a' <= c <= 'z' || c == '_'
            },
        task_name(call_id, ordinal).len() <= 27 + decimal_text(ordinal).len(),
        ({
            let letters = path_letters(call_id);
            let kept = if letters.len() <= 20 {
                letters
            } else {
                letters.take(20)
            };
            kept.len() > 0 ==> task_name(call_id, ordinal) == seq!['s', 'p', 'a', 'w', 'n', '_']
                + kept + seq!['_'] + decimal_text(ordinal)
        }),
        path_letters(call_id).len() == 0 ==> task_name(call_id, ordinal) == seq![
            's',
            'p',
            'a',
            'w',
            'n',
            '_',
            'c',
            'a',
            'l',
            'l',
            '_',
        ] + decimal_text(ordinal),
{
    reveal_strlit("spawn_");
    reveal_strlit("call");
    reveal_strlit("_");
    lemma_path_letters(call_id);
    a_number_reads_back(ordinal);
    let letters = path_letters(call_id);
    let kept = if letters.len() <= 20 {
        letters
    } else {
        letters.take(20)
    };
    assert("spawn_"@ =~= seq!['s', 'p', 'a', 'w', 'n', '_']);
    assert("_"@ =~= seq!['_']);
    let name = task_name(call_id, ordinal);
    if kept.len() > 0 {
        assert(name =~= seq!['s', 'p', 'a', 'w', 'n', '_'] + kept + seq!['_'] + decimal_text(
            ordinal,
        ));
    } else {
        assert(letters.len() == 0);
        assert("call"@ =~= seq!['c', 'a', 'l', 'l']);
        assert(name =~= seq!['s', 'p', 'a', 'w', 'n', '_', 'c', 'a', 'l', 'l', '_']
            + decimal_text(ordinal));
    }
    assert forall|i: int| 0 <= i < name.len() implies ({
        let c = #[trigger] name[i];
        '0' <= c <= '9' || 'a' <= c <= 'z' || c == '_'
    }) by {
        let middle = if kept.len() > 0 {
            kept
        } else {
            "call"@
        };
        if 6 <= i < 6 + middle.len() {
            assert(name[i] == middle[i - 6]);
            if kept.len() > 0 {
                assert(middle[i - 6] == letters[i - 6]);
            }
        } else if i > 6 + middle.len() {
            assert(name[i] == decimal_text(ordinal)[i - 7 - middle.len()]);
        }
    }
}

/// The children of one call have names of their own.
pub proof fn siblings_have_names_of_their_own(call_id: Seq<char>, a: nat, b: nat)
    requires
        task_name(call_id, a) == task_name(call_id, b),
    ensures
        a == b,
{
    names_are_path_safe(call_id, a);
    names_are_path_safe(call_id, b);
    let head = task_name(call_id, a).len() - decimal_text(a).len();
    assert(task_name(call_id, a).skip(head) =~= decimal_text(a));
    assert(task_name(call_id, b).skip(head) =~= decimal_text(b));
    numbers_are_told_apart(a, b);
}

/// A path is in its own subtree, a child is in its parent's, subtrees nest, and
/// a path that only begins like another is not in its subtree.
pub proof fn subtrees_nest(path: Seq<char>, child: Seq<char>, deeper: Seq<char>)
    ensures
        in_subtree(path, path),
        in_subtree(path + seq!['/'] + child, path),
        in_subtree(deeper, child) && in_subtree(child, path) ==> in_subtree(deeper, path),
        in_subtree(child, path) && in_subtree(path, child) ==> child == path,
        child.len() > 0 && child[0] != '/' ==> !in_subtree(path + child, path),
        in_subtree(child, path) ==> path.is_prefix_of(child),
{
    assert((path + seq!['/'] + child).take(path.len() as int) =~= path);
    if in_subtree(deeper, child) && in_subtree(child, path) && deeper != child && child != path {
        assert(deeper.take(path.len() as int) =~= child.take(path.len() as int));
        assert(deeper[path.len() as int] == deeper.take(child.len() as int)[path.len() as int]);
    }
    if child.len() > 0 && child[0] != '/' {
        assert((path + child)[path.len() as int] == child[0]);
    }
}

/// A path is below some roots exactly where it is below one of them.
pub proof fn one_root_is_enough(author: Seq<char>, roots: Seq<String>, more: Seq<String>)
    ensures
        in_subtrees(author, roots + more) <==> in_subtrees(author, roots) || in_subtrees(
            author,
            more,
        ),
        forall|i: int|
            0 <= i < roots.len() && author == (#[trigger] roots[i])@ ==> in_subtrees(author, roots),
        !in_subtrees(author, Seq::empty()),
{
    let all = roots + more;
    if in_subtrees(author, roots) {
        let i = choose|i: int| 0 <= i < roots.len() && in_subtree(author, (#[trigger] roots[i])@);
        assert(all[i] == roots[i]);
    }
    if in_subtrees(author, more) {
        let i = choose|i: int| 0 <= i < more.len() && in_subtree(author, (#[trigger] more[i])@);
        assert(all[roots.len() + i] == more[i]);
    }
    if in_subtrees(author, all) {
        let i = choose|i: int| 0 <= i < all.len() && in_subtree(author, (#[trigger] all[i])@);
        if i < roots.len() {
            assert(all[i] == roots[i]);
        } else {
            assert(all[i] == more[i - roots.len()]);
        }
    }
}

/// The branches that started are those whose start succeeded, each once and in
/// order; every other task of the batch has a result at once, under its own
/// ordinal and with the reason.
pub proof fn every_start_is_accounted_for(starts: Seq<Result<String, String>>, at: int)
    requires
        0 <= at < starts.len() <= usize::MAX,
    ensures
        started(starts).contains(at) <==> starts[at] is Ok,
        forall|k: int, l: int|
            0 <= k < l < started(starts).len() ==> #[trigger] started(starts)[k]
                < #[trigger] started(starts)[l],
        forall|k: int|
            0 <= k < started(starts).len() ==> 0 <= #[trigger] started(starts)[k] < starts.len(),
        starts[at] is Ok <==> start_slot(starts, at) is None,
        starts[at] matches Err(error) ==> (start_slot(starts, at) matches Some(result)
            && result.outcome == SpawnOutcome::Errored && result.diagnostic == Some(
            "child failed to start: "@ + error@,
        ) && result.memory_body == "child failed to start: "@ + error@ && (at <= u32::MAX
            ==> result.ordinal == at)),
    decreases starts.len(),
{
    let rest = starts.drop_last();
    let before = started(rest);
    if starts.len() > 1 {
        let earlier = if at < rest.len() {
            at
        } else {
            0
        };
        every_start_is_accounted_for(rest, earlier);
    } else {
        assert(rest =~= Seq::empty());
    }
    let all = started(starts);
    if at < rest.len() {
        assert(rest[at] == starts[at]);
        if before.contains(at) {
            let k = choose|k: int| 0 <= k < before.len() && before[k] == at;
            assert(all[k] == at);
        }
        if all.contains(at) {
            let k = choose|k: int| 0 <= k < all.len() && all[k] == at;
            assert(before[k] == at);
        }
    } else {
        if starts[at] is Ok {
            assert(all[before.len() as int] == at);
        } else if all.contains(at) {
            let k = choose|k: int| 0 <= k < all.len() && all[k] == at;
            assert(before[k] == at);
        }
    }
}

/// A request that is no spawn request is refused in the words of what read it.
/// Of a spawn request the first task with the summary of an earlier one is named
/// with that summary; where none repeats, the first task whose input is too
/// large is named with its size.
pub proof fn a_refusal_names_the_first_bad_task(
    validated: Result<RequestValidation, String>,
    empty_item_bytes: nat,
    message: Seq<char>,
)
    requires
        refusal(validated, empty_item_bytes, message),
    ensures
        validated matches Err(error) ==> message == error@,
        validated == Ok::<RequestValidation, String>(RequestValidation::Other) ==> message
            == "spine.spawn validation returned an unexpected result"@,
        validated matches Ok(RequestValidation::Spawn(tasks)) ==> ({
            ||| exists|i: int, j: int|
                0 <= j < i < tasks@.len() && trimmed((#[trigger] tasks@[j]).summary@) == trimmed(
                    (#[trigger] tasks@[i]).summary@,
                ) && message == "spine.spawn task "@ + decimal_text(i as nat)
                    + " has duplicate summary `"@ + trimmed(tasks@[i].summary@) + "`"@ && (
                forall|k: int, l: int|
                    0 <= l < k < i ==> trimmed((#[trigger] tasks@[l]).summary@) != trimmed(
                        (#[trigger] tasks@[k]).summary@,
                    ))
            ||| exists|i: int|
                0 <= i < tasks@.len() && empty_item_bytes + json_len(
                    envelope(#[trigger] tasks@[i], tasks@),
                ) > 9_000 && message == "spine.spawn task "@ + decimal_text(i as nat)
                    + " produces an oversized child initial input: "@
                    + ("Spine model provider value is "@ + decimal_text(
                    if empty_item_bytes + json_len(envelope(tasks@[i], tasks@)) <= usize::MAX {
                        empty_item_bytes + json_len(envelope(tasks@[i], tasks@))
                    } else {
                        usize::MAX as nat
                    },
                ) + " bytes; maximum is "@ + decimal_text(9_000)) && (forall|k: int|
                    0 <= k < i ==> empty_item_bytes + json_len(
                        envelope(#[trigger] tasks@[k], tasks@),
                    ) <= 9_000) && (forall|k: int, l: int|
                    0 <= l < k < tasks@.len() ==> trimmed((#[trigger] tasks@[l]).summary@)
                        != trimmed((#[trigger] tasks@[k]).summary@))
        }),
{
    if let Ok(RequestValidation::Spawn(tasks)) = validated {
        let all = tasks@;
        if !distinct_summaries(all, all.len() as int) {
            let i = choose|i: int|
                0 <= i < all.len() && distinct_summaries(all, i) && #[trigger] repeats(all, i)
                    && message == duplicate_text(i as nat, trimmed(all[i].summary@));
            let j = choose|j: int|
                0 <= j < i && trimmed((#[trigger] all[j]).summary@) == trimmed(all[i].summary@);
            assert forall|k: int, l: int| 0 <= l < k < i implies trimmed(
                (#[trigger] all[l]).summary@,
            ) != trimmed((#[trigger] all[k]).summary@) by {
                assert(!repeats(all, k));
            }
            assert(trimmed(all[j].summary@) == trimmed(all[i].summary@));
        } else {
            assert forall|k: int, l: int| 0 <= l < k < all.len() implies trimmed(
                (#[trigger] all[l]).summary@,
            ) != trimmed((#[trigger] all[k]).summary@) by {
                assert(!repeats(all, k));
            }
            let i = choose|i: int|
                0 <= i < all.len() && inputs_fit(empty_item_bytes, all, i) && {
                    let bytes = child_wire_bytes(empty_item_bytes, #[trigger] all[i], all);
                    &&& bytes > 9_000
                    &&& message == oversized_input_text(
                        i as nat,
                        if bytes <= usize::MAX {
                            bytes
                        } else {
                            usize::MAX as nat
                        },
                    )
                };
            assert forall|k: int| 0 <= k < i implies empty_item_bytes + json_len(
                envelope(#[trigger] all[k], all),
            ) <= 9_000 by {
                assert(child_wire_bytes(empty_item_bytes, all[k], all) <= 9_000);
            }
            assert(empty_item_bytes + json_len(envelope(all[i], all)) > 9_000);
        }
    }
}

/// The running branches are those whose start succeeded, in order: each under
/// its ordinal, in the thread that its start gave it, and at its own path.
pub proof fn a_running_branch_is_its_start(
    live: Seq<LiveBranch>,
    starts: Seq<Result<String, String>>,
    paths: Seq<String>,
    k: int,
)
    requires
        lists_started(live, starts, paths),
    ensures
        live.len() == started(starts).len(),
        0 <= k < live.len() ==> {
            let at = live[k].ordinal as int;
            &&& at == started(starts)[k]
            &&& 0 <= at < starts.len()
            &&& starts[at] == Ok::<String, String>(live[k].thread_id)
            &&& live[k].path@ == paths[at]@
        },
{
}

} // verus!

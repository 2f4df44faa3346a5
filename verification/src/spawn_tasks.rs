//! Spawn requests: what a request must be, and what each branch is told.

use crate::fragments::MAX_SPINE_MODEL_ITEM_WIRE_BYTES;
use crate::spawn::{
    error_result, SpawnResult, SpawnTask, ENVELOPE_CONTRACT, ENVELOPE_OPENING, ENVELOPE_PEERS,
};
use crate::fragments::SpawnOutcome;
use crate::text::{decimal, same_text, to_chars, trim};
use vstd::prelude::*;

verus! {

use crate::fragments::oversized_item_text;
use crate::spawn::{failure, slot_models, slot_view, ResultModel};
use crate::text::{decimal_text, trimmed};

/// The roster lines of the branches other than `identity`: their trimmed
/// summaries, in task order.
pub open spec fn roster(tasks: Seq<SpawnTask>, identity: Seq<char>) -> Seq<Seq<char>>
    decreases tasks.len(),
{
    if tasks.len() == 0 {
        Seq::empty()
    } else {
        let before = roster(tasks.drop_last(), identity);
        let peer = trimmed(tasks.last().summary@);
        if peer == identity {
            before
        } else {
            before.push("- "@ + peer)
        }
    }
}

/// Lines, one below the other.
pub open spec fn lines(parts: Seq<Seq<char>>) -> Seq<char>
    decreases parts.len(),
{
    if parts.len() == 0 {
        Seq::empty()
    } else if parts.len() == 1 {
        parts[0]
    } else {
        lines(parts.drop_last()) + "\n"@ + parts.last()
    }
}

/// What a branch is told: who it is, who its peers are, how it works, and its
/// assignment last.
pub open spec fn envelope(task: SpawnTask, tasks: Seq<SpawnTask>) -> Seq<char> {
    let identity = trimmed(task.summary@);
    ENVELOPE_OPENING@ + identity + ENVELOPE_PEERS@ + lines(roster(tasks, identity))
        + ENVELOPE_CONTRACT@ + task.prompt@
}

pub fn task_envelope(task: &SpawnTask, call_tasks: &Vec<SpawnTask>) -> (r: String)
    ensures
        r@ == envelope(*task, call_tasks@),
{
    let identity = trim(task.summary.as_str());
    let mut peers = String::new();
    let mut listed: usize = 0;
    let mut i: usize = 0;
    proof {
        assert(call_tasks@.take(0) =~= Seq::empty());
        assert(peers@ =~= lines(Seq::<Seq<char>>::empty()));
    }
    while i < call_tasks.len()
        invariant
            i <= call_tasks@.len(),
            listed <= i,
            listed == roster(call_tasks@.take(i as int), identity@).len(),
            peers@ == lines(roster(call_tasks@.take(i as int), identity@)),
        decreases call_tasks@.len() - i,
    {
        let peer = trim(call_tasks[i].summary.as_str());
        let ghost before = roster(call_tasks@.take(i as int), identity@);
        proof {
            let upto = call_tasks@.take(i + 1);
            assert(upto.drop_last() =~= call_tasks@.take(i as int));
            assert(upto.last() == call_tasks@[i as int]);
        }
        if !same_text(peer.as_str(), identity.as_str()) {
            proof {
                let after = before.push("- "@ + peer@);
                assert(after.drop_last() =~= before);
                assert(roster(call_tasks@.take(i + 1), identity@) == after);
                if before.len() > 0 {
                    assert(lines(after) == lines(before) + "\n"@ + ("- "@ + peer@));
                    assert(lines(before) + "\n"@ + ("- "@ + peer@) =~= lines(before) + "\n"@ + "- "@
                        + peer@);
                } else {
                    assert(lines(after) == "- "@ + peer@);
                    assert(lines(before) + "- "@ + peer@ =~= "- "@ + peer@);
                }
            }
            if listed > 0 {
                peers.append("\n");
            }
            peers.append("- ");
            peers.append(peer.as_str());
            listed = listed + 1;
        }
        i = i + 1;
    }
    assert(call_tasks@.take(i as int) =~= call_tasks@);
    let mut out = String::from_str(ENVELOPE_OPENING);
    out.append(identity.as_str());
    out.append(ENVELOPE_PEERS);
    out.append(peers.as_str());
    out.append(ENVELOPE_CONTRACT);
    out.append(task.prompt.as_str());
    out
}

/// How many bytes a character takes inside a JSON string: two where it has a
/// short escape, six for the other control characters, its UTF-8 size else.
pub open spec fn json_char_len(c: char) -> nat {
    if c == '"' || c == '\\' || c == '\u{8}' || c == '\u{9}' || c == '\u{a}' || c == '\u{c}' || c
        == '\u{d}' {
        2
    } else if c as u32 <= 31 {
        6
    } else if c as u32 <= 127 {
        1
    } else if c as u32 <= 2047 {
        2
    } else if c as u32 <= 65535 {
        3
    } else {
        4
    }
}

/// How many bytes a text takes inside a JSON string.
pub open spec fn json_len(s: Seq<char>) -> nat
    decreases s.len(),
{
    if s.len() == 0 {
        0
    } else {
        json_len(s.drop_last()) + json_char_len(s.last())
    }
}

/// How many bytes a text takes inside a JSON string, where that many can be
/// counted.
pub fn json_text_size(s: &str) -> (r: Option<usize>)
    ensures
        match r {
            Some(n) => n == json_len(s@),
            None => json_len(s@) > usize::MAX,
        },
{
    let chars = to_chars(s);
    let mut total: usize = 0;
    let mut i: usize = 0;
    assert(s@.take(0) =~= Seq::<char>::empty());
    while i < chars.len()
        invariant
            i <= chars@.len(),
            chars@ == s@,
            total == json_len(s@.take(i as int)),
        decreases chars@.len() - i,
    {
        let c = chars[i];
        let n: usize = if c == '"' || c == '\\' || c == '\u{8}' || c == '\u{9}' || c == '\u{a}' || c
            == '\u{c}' || c == '\u{d}' {
            2
        } else if c as u32 <= 31 {
            6
        } else if c as u32 <= 127 {
            1
        } else if c as u32 <= 2047 {
            2
        } else if c as u32 <= 65535 {
            3
        } else {
            4
        };
        proof {
            let upto = s@.take(i + 1);
            assert(upto.drop_last() =~= s@.take(i as int));
            assert(upto.last() == c);
            lemma_json_len_prefix(s@, i + 1);
        }
        match total.checked_add(n) {
            Some(sum) => {
                total = sum;
            },
            None => {
                return None;
            },
        }
        i = i + 1;
    }
    assert(s@.take(i as int) =~= s@);
    Some(total)
}

proof fn lemma_json_len_prefix(s: Seq<char>, n: int)
    requires
        0 <= n <= s.len(),
    ensures
        json_len(s.take(n)) <= json_len(s),
    decreases s.len() - n,
{
    if n == s.len() {
        assert(s.take(n) =~= s);
    } else {
        lemma_json_len_prefix(s, n + 1);
        assert(s.take(n + 1).drop_last() =~= s.take(n));
    }
}

/// The size of the provider value that carries a child's first input.
/// `empty_item_bytes` is its size where that input is empty.
pub open spec fn child_wire_bytes(
    empty_item_bytes: nat,
    task: SpawnTask,
    tasks: Seq<SpawnTask>,
) -> nat {
    empty_item_bytes + json_len(envelope(task, tasks))
}

/// Whether no branch's first input is over the provider limit.
pub open spec fn inputs_fit(empty_item_bytes: nat, tasks: Seq<SpawnTask>, upto: int) -> bool {
    forall|i: int|
        0 <= i < upto ==> child_wire_bytes(empty_item_bytes, #[trigger] tasks[i], tasks)
            <= MAX_SPINE_MODEL_ITEM_WIRE_BYTES
}

/// Why a task's first input is refused.
pub open spec fn oversized_input_text(ordinal: nat, bytes: nat) -> Seq<char> {
    "spine.spawn task "@ + decimal_text(ordinal)
        + " produces an oversized child initial input: "@ + oversized_item_text(bytes)
}

/// Rejects a batch when one child's first input is over the provider limit.
///
/// The child sees the rendered envelope, not only the task's prompt, so the
/// size counts its assignment, identity, peer roster and JSON escaping.
pub fn validate_complete_child_inputs(tasks: &Vec<SpawnTask>, empty_item_bytes: usize) -> (r:
    Result<(), String>)
    ensures
        match r {
            Ok(()) => inputs_fit(empty_item_bytes as nat, tasks@, tasks@.len() as int),
            Err(message) => exists|i: int|
                0 <= i < tasks@.len() && inputs_fit(empty_item_bytes as nat, tasks@, i) && {
                    let bytes = child_wire_bytes(
                        empty_item_bytes as nat,
                        #[trigger] tasks@[i],
                        tasks@,
                    );
                    &&& bytes > MAX_SPINE_MODEL_ITEM_WIRE_BYTES
                    &&& message@ == oversized_input_text(
                        i as nat,
                        if bytes <= usize::MAX {
                            bytes
                        } else {
                            usize::MAX as nat
                        },
                    )
                },
        },
{
    let mut i: usize = 0;
    while i < tasks.len()
        invariant
            i <= tasks@.len(),
            inputs_fit(empty_item_bytes as nat, tasks@, i as int),
        decreases tasks@.len() - i,
    {
        let input = task_envelope(&tasks[i], tasks);
        let bytes: usize = match json_text_size(input.as_str()) {
            Some(size) => size.saturating_add(empty_item_bytes),
            None => usize::MAX,
        };
        if bytes > MAX_SPINE_MODEL_ITEM_WIRE_BYTES {
            let mut message = String::from_str("spine.spawn task ");
            message.append(decimal(i as u64).as_str());
            message.append(" produces an oversized child initial input: ");
            message.append("Spine model provider value is ");
            message.append(decimal(bytes as u64).as_str());
            message.append(" bytes; maximum is ");
            message.append(decimal(MAX_SPINE_MODEL_ITEM_WIRE_BYTES as u64).as_str());
            proof {
                let exact = child_wire_bytes(empty_item_bytes as nat, tasks@[i as int], tasks@);
                assert(message@ =~= oversized_input_text(i as nat, bytes as nat));
                assert(exact > MAX_SPINE_MODEL_ITEM_WIRE_BYTES);
            }
            return Err(message);
        }
        i = i + 1;
    }
    Ok(())
}

/// What the tool protocol made of a request's arguments.
#[derive(Debug, PartialEq, Eq)]
pub enum RequestValidation {
    /// A spawn request with these tasks.
    Spawn(Vec<SpawnTask>),
    /// Something other than a spawn request.
    Other,
}

/// Whether the task at `at` has the summary of an earlier one, white space
/// around it aside.
pub open spec fn repeats(tasks: Seq<SpawnTask>, at: int) -> bool {
    exists|j: int|
        0 <= j < at && trimmed((#[trigger] tasks[j]).summary@) == trimmed(tasks[at].summary@)
}

/// Whether no task before `upto` repeats an earlier summary.
pub open spec fn distinct_summaries(tasks: Seq<SpawnTask>, upto: int) -> bool {
    forall|i: int| 0 <= i < upto ==> !(#[trigger] repeats(tasks, i))
}

/// Why a request with a repeated summary is refused.
pub open spec fn duplicate_text(ordinal: nat, summary: Seq<char>) -> Seq<char> {
    "spine.spawn task "@ + decimal_text(ordinal) + " has duplicate summary `"@ + summary + "`"@
}

/// Why a request is refused: the first of the protocol's own refusal, a
/// repeated summary and an oversized child input.
pub open spec fn refusal(
    validated: Result<RequestValidation, String>,
    empty_item_bytes: nat,
    message: Seq<char>,
) -> bool {
    match validated {
        Err(error) => message == error@,
        Ok(RequestValidation::Other) => message
            == "spine.spawn validation returned an unexpected result"@,
        Ok(RequestValidation::Spawn(tasks)) => if !distinct_summaries(
            tasks@,
            tasks@.len() as int,
        ) {
            exists|i: int|
                0 <= i < tasks@.len() && distinct_summaries(tasks@, i) && #[trigger] repeats(
                    tasks@,
                    i,
                ) && message == duplicate_text(i as nat, trimmed(tasks@[i].summary@))
        } else {
            exists|i: int|
                0 <= i < tasks@.len() && inputs_fit(empty_item_bytes, tasks@, i) && {
                    let bytes = child_wire_bytes(empty_item_bytes, #[trigger] tasks@[i], tasks@);
                    &&& bytes > MAX_SPINE_MODEL_ITEM_WIRE_BYTES
                    &&& message == oversized_input_text(
                        i as nat,
                        if bytes <= usize::MAX {
                            bytes
                        } else {
                            usize::MAX as nat
                        },
                    )
                }
        },
    }
}

/// Whether a request is acceptable as a whole.
pub open spec fn acceptable(tasks: Seq<SpawnTask>, empty_item_bytes: nat) -> bool {
    distinct_summaries(tasks, tasks.len() as int) && inputs_fit(
        empty_item_bytes,
        tasks,
        tasks.len() as int,
    )
}

fn find_repeat(tasks: &Vec<SpawnTask>) -> (r: Option<usize>)
    ensures
        match r {
            Some(i) => i < tasks@.len() && distinct_summaries(tasks@, i as int) && repeats(
                tasks@,
                i as int,
            ),
            None => distinct_summaries(tasks@, tasks@.len() as int),
        },
{
    let mut i: usize = 0;
    while i < tasks.len()
        invariant
            i <= tasks@.len(),
            distinct_summaries(tasks@, i as int),
        decreases tasks@.len() - i,
    {
        let summary = trim(tasks[i].summary.as_str());
        let mut j: usize = 0;
        while j < i
            invariant
                j <= i < tasks@.len(),
                summary@ == trimmed(tasks@[i as int].summary@),
                distinct_summaries(tasks@, i as int),
                forall|k: int|
                    0 <= k < j ==> trimmed((#[trigger] tasks@[k]).summary@) != summary@,
            decreases i - j,
        {
            let earlier = trim(tasks[j].summary.as_str());
            if same_text(earlier.as_str(), summary.as_str()) {
                assert(trimmed(tasks@[j as int].summary@) == trimmed(tasks@[i as int].summary@));
                assert(repeats(tasks@, i as int));
                return Some(i);
            }
            j = j + 1;
        }
        assert(!repeats(tasks@, i as int));
        i = i + 1;
    }
    None
}

/// The tasks of an acceptable request.
///
/// `validated` is what the tool protocol made of the arguments, and
/// `empty_item_bytes` the size of the provider value of an empty child input.
pub fn parse_tasks(validated: Result<RequestValidation, String>, empty_item_bytes: usize) -> (r:
    Result<Vec<SpawnTask>, String>)
    ensures
        match r {
            Ok(tasks) => validated == Ok::<RequestValidation, String>(
                RequestValidation::Spawn(tasks),
            ) && acceptable(tasks@, empty_item_bytes as nat),
            Err(message) => refusal(validated, empty_item_bytes as nat, message@) && !(validated
                matches Ok(RequestValidation::Spawn(tasks)) && acceptable(
                tasks@,
                empty_item_bytes as nat,
            )),
        },
{
    let tasks = match validated {
        Ok(RequestValidation::Spawn(tasks)) => tasks,
        Ok(RequestValidation::Other) => {
            return Err("spine.spawn validation returned an unexpected result".to_owned());
        },
        Err(error) => {
            return Err(error);
        },
    };
    if let Some(ordinal) = find_repeat(&tasks) {
        let summary = trim(tasks[ordinal].summary.as_str());
        let mut message = String::from_str("spine.spawn task ");
        message.append(decimal(ordinal as u64).as_str());
        message.append(" has duplicate summary `");
        message.append(summary.as_str());
        message.append("`");
        assert(repeats(tasks@, ordinal as int));
        return Err(message);
    }
    match validate_complete_child_inputs(&tasks, empty_item_bytes) {
        Ok(()) => Ok(tasks),
        Err(message) => Err(message),
    }
}

/// How many tasks an acceptable request asks for; nothing for any other.
pub open spec fn request_size(
    validated: Result<RequestValidation, String>,
    empty_item_bytes: nat,
) -> Option<usize> {
    match validated {
        Ok(RequestValidation::Spawn(tasks)) => if acceptable(tasks@, empty_item_bytes) {
            Some(tasks@.len() as usize)
        } else {
            None
        },
        _ => None,
    }
}

/// How many tasks a request asks for, where [`parse_tasks`] accepts it.
pub fn requested_tasks(
    validated: &Result<RequestValidation, String>,
    empty_item_bytes: usize,
) -> (r: Option<usize>)
    ensures
        r == request_size(*validated, empty_item_bytes as nat),
{
    match validated {
        Ok(RequestValidation::Spawn(tasks)) => {
            if let Some(ordinal) = find_repeat(tasks) {
                assert(repeats(tasks@, ordinal as int));
                return None;
            }
            match validate_complete_child_inputs(tasks, empty_item_bytes) {
                Ok(()) => Some(tasks.len()),
                Err(_) => None,
            }
        },
        _ => None,
    }
}

/// The most tasks that one request may hold.
pub open spec fn task_limit(max_concurrent_threads: nat, max_spawn_tasks: nat) -> nat {
    let free = if max_concurrent_threads > 0 {
        (max_concurrent_threads - 1) as nat
    } else {
        0
    };
    if free <= max_spawn_tasks {
        free
    } else {
        max_spawn_tasks
    }
}

/// Refuses a request that asks for more branches than the session may run
/// besides the one that asks.
pub fn check_task_limit(
    task_count: usize,
    max_concurrent_threads: usize,
    max_spawn_tasks: usize,
) -> (r: Result<(), String>)
    ensures
        ({
            let limit = task_limit(max_concurrent_threads as nat, max_spawn_tasks as nat);
            match r {
                Ok(()) => task_count <= limit,
                Err(message) => task_count > limit && message@ == "spine.spawn accepts at most "@
                    + decimal_text(limit) + " tasks"@,
            }
        }),
{
    let free: usize = max_concurrent_threads.saturating_sub(1);
    let limit: usize = if free <= max_spawn_tasks {
        free
    } else {
        max_spawn_tasks
    };
    if task_count > limit {
        let mut message = String::from_str("spine.spawn accepts at most ");
        message.append(decimal(limit as u64).as_str());
        message.append(" tasks");
        return Err(message);
    }
    Ok(())
}

pub open spec fn ascii_alphanumeric(c: char) -> bool {
    ('0' <= c <= '9') || ('a' <= c <= 'z') || ('A' <= c <= 'Z')
}

pub open spec fn ascii_lowercase(c: char) -> char {
    if 'A' <= c <= 'Z' {
        (c as u32 + 32) as char
    } else {
        c
    }
}

/// The letters and digits of a text, in lower case.
pub open spec fn path_letters(s: Seq<char>) -> Seq<char>
    decreases s.len(),
{
    if s.len() == 0 {
        Seq::empty()
    } else if ascii_alphanumeric(s.last()) {
        path_letters(s.drop_last()).push(ascii_lowercase(s.last()))
    } else {
        path_letters(s.drop_last())
    }
}

/// The first characters of a text.
pub open spec fn first_chars(s: Seq<char>, n: nat) -> Seq<char> {
    if s.len() <= n {
        s
    } else {
        s.take(n as int)
    }
}

/// The path-safe name of a transaction's child.
pub open spec fn task_name(call_id: Seq<char>, ordinal: nat) -> Seq<char> {
    let letters = first_chars(path_letters(call_id), 20);
    "spawn_"@ + (if letters.len() == 0 {
        "call"@
    } else {
        letters
    }) + "_"@ + decimal_text(ordinal)
}

fn lower(c: char) -> (r: char)
    requires
        ascii_alphanumeric(c),
    ensures
        r == ascii_lowercase(c),
{
    if 'A' <= c && c <= 'Z' {
        match c {
            'A' => 'a',
            'B' => 'b',
            'C' => 'c',
            'D' => 'd',
            'E' => 'e',
            'F' => 'f',
            'G' => 'g',
            'H' => 'h',
            'I' => 'i',
            'J' => 'j',
            'K' => 'k',
            'L' => 'l',
            'M' => 'm',
            'N' => 'n',
            'O' => 'o',
            'P' => 'p',
            'Q' => 'q',
            'R' => 'r',
            'S' => 's',
            'T' => 't',
            'U' => 'u',
            'V' => 'v',
            'W' => 'w',
            'X' => 'x',
            'Y' => 'y',
            _ => 'z',
        }
    } else {
        c
    }
}

pub fn transaction_task_name(call_id: &str, ordinal: usize) -> (r: String)
    ensures
        r@ == task_name(call_id@, ordinal as nat),
{
    let chars = to_chars(call_id);
    let mut fragment = String::new();
    let mut taken: usize = 0;
    let mut i: usize = 0;
    assert(call_id@.take(0) =~= Seq::<char>::empty());
    while i < chars.len()
        invariant
            i <= chars@.len(),
            chars@ == call_id@,
            taken == fragment@.len(),
            taken <= 20,
            fragment@ == first_chars(path_letters(call_id@.take(i as int)), 20),
        decreases chars@.len() - i,
    {
        let c = chars[i];
        proof {
            let upto = call_id@.take(i + 1);
            assert(upto.drop_last() =~= call_id@.take(i as int));
            assert(upto.last() == c);
        }
        let letter = ('0' <= c && c <= '9') || ('a' <= c && c <= 'z') || ('A' <= c && c <= 'Z');
        if letter && taken < 20 {
            fragment.push(lower(c));
            taken = taken + 1;
            assert(fragment@ =~= first_chars(path_letters(call_id@.take(i + 1)), 20));
        } else {
            assert(fragment@ =~= first_chars(path_letters(call_id@.take(i + 1)), 20));
        }
        i = i + 1;
    }
    assert(call_id@.take(i as int) =~= call_id@);
    let mut name = String::from_str("spawn_");
    if taken == 0 {
        name.append("call");
    } else {
        name.append(fragment.as_str());
    }
    name.append("_");
    name.append(decimal(ordinal as u64).as_str());
    name
}

/// Whether a path is `root` or lies below it.
pub open spec fn in_subtree(candidate: Seq<char>, root: Seq<char>) -> bool {
    candidate == root || (candidate.len() > root.len() && candidate.take(root.len() as int) == root
        && candidate[root.len() as int] == '/')
}

pub fn path_is_in_subtree(candidate: &str, root: &str) -> (r: bool)
    ensures
        r == in_subtree(candidate@, root@),
{
    let path = to_chars(candidate);
    let prefix = to_chars(root);
    if path.len() < prefix.len() {
        return false;
    }
    let mut i: usize = 0;
    while i < prefix.len()
        invariant
            i <= prefix@.len() <= path@.len(),
            path@ == candidate@,
            prefix@ == root@,
            forall|j: int| 0 <= j < i ==> path@[j] == prefix@[j],
        decreases prefix@.len() - i,
    {
        if path[i] != prefix[i] {
            proof {
                assert(candidate@[i as int] != root@[i as int]);
                if candidate@.len() > root@.len() {
                    assert(candidate@.take(root@.len() as int)[i as int] == candidate@[i as int]);
                }
            }
            return false;
        }
        i = i + 1;
    }
    if path.len() == prefix.len() {
        assert(candidate@ =~= root@);
        return true;
    }
    assert(candidate@.take(root@.len() as int) =~= root@);
    path[prefix.len()] == '/'
}

/// Whether a path lies in the subtree of any of the roots.
pub open spec fn in_subtrees(author: Seq<char>, roots: Seq<String>) -> bool {
    exists|i: int| 0 <= i < roots.len() && in_subtree(author, (#[trigger] roots[i])@)
}

pub fn author_is_in_transaction_subtree(author: &str, transaction_roots: &Vec<String>) -> (r: bool)
    ensures
        r == in_subtrees(author@, transaction_roots@),
{
    let mut i: usize = 0;
    while i < transaction_roots.len()
        invariant
            i <= transaction_roots@.len(),
            forall|j: int|
                0 <= j < i ==> !in_subtree(author@, (#[trigger] transaction_roots@[j])@),
        decreases transaction_roots@.len() - i,
    {
        if path_is_in_subtree(author, transaction_roots[i].as_str()) {
            return true;
        }
        i = i + 1;
    }
    false
}

/// A branch that is running.
#[derive(Debug, PartialEq, Eq)]
pub struct LiveBranch {
    pub ordinal: usize,
    pub thread_id: String,
    pub path: String,
}

/// What became of starting a batch.
pub struct StartPhase {
    pub live: Vec<LiveBranch>,
    pub results: Vec<Option<SpawnResult>>,
    pub failed: bool,
}

/// The ordinals that started, in order.
pub open spec fn started(starts: Seq<Result<String, String>>) -> Seq<int>
    decreases starts.len(),
{
    if starts.len() == 0 {
        Seq::empty()
    } else if starts.last() is Ok {
        started(starts.drop_last()).push(starts.len() - 1)
    } else {
        started(starts.drop_last())
    }
}

/// The result slot of a start that failed.
pub open spec fn start_slot(starts: Seq<Result<String, String>>, at: int) -> Option<ResultModel> {
    if at < starts.len() {
        match starts[at] {
            Ok(_) => None,
            Err(error) => Some(
                failure(
                    at as usize,
                    SpawnOutcome::Errored,
                    "child failed to start: "@ + error@,
                    None,
                ),
            ),
        }
    } else {
        None
    }
}

/// Whether a branch is the one that started at the given ordinal.
pub open spec fn is_branch_at(
    branch: LiveBranch,
    at: int,
    starts: Seq<Result<String, String>>,
    paths: Seq<String>,
) -> bool {
    &&& 0 <= at < starts.len()
    &&& branch.ordinal == at
    &&& starts[at] == Ok::<String, String>(branch.thread_id)
    &&& branch.path@ == paths[at]@
}

/// Whether `live` lists the branches at the given ordinals, in order.
pub open spec fn lists_branches(
    live: Seq<LiveBranch>,
    ordinals: Seq<int>,
    starts: Seq<Result<String, String>>,
    paths: Seq<String>,
) -> bool {
    &&& live.len() == ordinals.len()
    &&& forall|k: int|
        0 <= k < live.len() ==> is_branch_at(#[trigger] live[k], ordinals[k], starts, paths)
}

/// Whether `live` lists exactly the starts that succeeded, in order.
pub open spec fn lists_started(
    live: Seq<LiveBranch>,
    starts: Seq<Result<String, String>>,
    paths: Seq<String>,
) -> bool {
    lists_branches(live, started(starts), starts, paths)
}

/// Sorts the starts of a batch into running branches and failures.
pub fn classify_start_results(
    child_paths: &Vec<String>,
    start_results: Vec<Result<String, String>>,
) -> (r: StartPhase)
    requires
        start_results@.len() <= child_paths@.len(),
    ensures
        lists_started(r.live@, start_results@, child_paths@),
        slot_models(r.results@) == Seq::new(
            child_paths@.len(),
            |i: int| start_slot(start_results@, i),
        ),
        r.failed == exists|i: int| 0 <= i < start_results@.len() && #[trigger] start_results@[i] is Err,
{
    let mut live: Vec<LiveBranch> = Vec::new();
    let mut results: Vec<Option<SpawnResult>> = Vec::new();
    let mut failed = false;
    let mut i: usize = 0;
    assert(start_results@.take(0) =~= Seq::empty());
    while i < start_results.len()
        invariant
            i <= start_results@.len() <= child_paths@.len(),
            results@.len() == i,
            lists_branches(
                live@,
                started(start_results@.take(i as int)),
                start_results@,
                child_paths@,
            ),
            forall|k: int|
                0 <= k < i ==> slot_view(#[trigger] results@[k]) == start_slot(start_results@, k),
            failed == exists|k: int| 0 <= k < i && #[trigger] start_results@[k] is Err,
        decreases start_results@.len() - i,
    {
        proof {
            let upto = start_results@.take(i + 1);
            assert(upto.drop_last() =~= start_results@.take(i as int));
            assert(upto.last() == start_results@[i as int]);
            assert(upto.len() - 1 == i);
            assert(started(upto) == if start_results@[i as int] is Ok {
                started(start_results@.take(i as int)).push(i as int)
            } else {
                started(start_results@.take(i as int))
            });
        }
        match &start_results[i] {
            Ok(thread_id) => {
                let ghost before = live@;
                live.push(
                    LiveBranch {
                        ordinal: i,
                        thread_id: thread_id.clone(),
                        path: child_paths[i].clone(),
                    },
                );
                results.push(None);
                proof {
                    let ordinals = started(start_results@.take(i + 1));
                    assert forall|k: int| 0 <= k < live@.len() implies is_branch_at(
                        #[trigger] live@[k],
                        ordinals[k],
                        start_results@,
                        child_paths@,
                    ) by {
                        if k < before.len() {
                            assert(live@[k] == before[k]);
                        }
                    }
                    assert(live@.len() == ordinals.len());
                    assert(lists_branches(live@, ordinals, start_results@, child_paths@));
                }
            },
            Err(error) => {
                failed = true;
                let mut diagnostic = String::from_str("child failed to start: ");
                diagnostic.append(error.as_str());
                results.push(Some(error_result(i, SpawnOutcome::Errored, diagnostic, None)));
                assert(start_results@[i as int] is Err);
                assert(lists_branches(
                    live@,
                    started(start_results@.take(i + 1)),
                    start_results@,
                    child_paths@,
                ));
            },
        }
        i = i + 1;
    }
    assert(start_results@.take(i as int) =~= start_results@);
    while results.len() < child_paths.len()
        invariant
            start_results@.len() <= results@.len() <= child_paths@.len(),
            forall|k: int|
                0 <= k < results@.len() ==> slot_view(#[trigger] results@[k]) == start_slot(
                    start_results@,
                    k,
                ),
        decreases child_paths@.len() - results@.len(),
    {
        results.push(None);
    }
    assert(slot_models(results@) =~= Seq::new(
        child_paths@.len(),
        |k: int| start_slot(start_results@, k),
    ));
    StartPhase { live, results, failed }
}

} // verus!

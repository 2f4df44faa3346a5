//! The files into which closed memories and the user's messages are projected.

use crate::rollout_source::SpinetreeUserMessageProjectionEntry;
use crate::text::{decimal, from_chars, is_white_space, same_text, to_chars, trim};
use vstd::prelude::*;
use vstd::utf8::encode_utf8;

verus! {

use crate::rollout_source::projection_views;
use crate::text::{decimal_text, leading_white, trimmed, trimmed_end, white_space};

/// How many characters of a summary a file name takes.
pub const SUMMARY_FILENAME_CHAR_BUDGET: usize = 96;

/// The file of the user's messages.
pub const USER_MESSAGES_FILENAME: &'static str = "USER.md";

/// The memory of a closed node.
#[derive(Debug, PartialEq, Eq)]
pub struct SpinetreeMemoryProjectionEntry {
    pub node_id: String,
    pub summary: String,
    pub body: String,
}

/// Whether a character may not stand in a file name.
pub open spec fn forbidden(c: char) -> bool {
    ||| c as u32 <= 0x1f
    ||| 0x7f <= c as u32 <= 0x9f
    ||| c == '/'
    ||| c == '\\'
    ||| c == ':'
    ||| c == '*'
    ||| c == '?'
    ||| c == '"'
    ||| c == '<'
    ||| c == '>'
    ||| c == '|'
    ||| white_space(c)
}

/// The character that stands for one in a file name.
pub open spec fn safe_char(c: char) -> char {
    if forbidden(c) {
        '_'
    } else {
        c
    }
}

fn make_safe(c: char) -> (r: char)
    ensures
        r == safe_char(c),
{
    let code = c as u32;
    if code <= 0x1f || (0x7f <= code && code <= 0x9f) || c == '/' || c == '\\' || c == ':' || c
        == '*' || c == '?' || c == '"' || c == '<' || c == '>' || c == '|' || is_white_space(c) {
        '_'
    } else {
        c
    }
}

/// A text with safe characters only, runs of underscores made one, as far as a
/// file name takes it.
pub open spec fn squeezed(s: Seq<char>) -> Seq<char>
    decreases s.len(),
{
    if s.len() == 0 {
        Seq::empty()
    } else {
        let before = squeezed(s.drop_last());
        let c = safe_char(s.last());
        if before.len() >= SUMMARY_FILENAME_CHAR_BUDGET {
            before
        } else if c == '_' && before.len() > 0 && before.last() == '_' {
            before
        } else {
            before.push(c)
        }
    }
}

/// The text without the underscores that it begins with.
pub open spec fn without_leading(s: Seq<char>) -> Seq<char>
    decreases s.len(),
{
    if s.len() > 0 && s[0] == '_' {
        without_leading(s.skip(1))
    } else {
        s
    }
}

/// The text without the underscores that it ends with.
pub open spec fn without_trailing(s: Seq<char>) -> Seq<char>
    decreases s.len(),
{
    if s.len() > 0 && s.last() == '_' {
        without_trailing(s.drop_last())
    } else {
        s
    }
}

/// The part of a file name that a summary gives.
pub open spec fn file_part(summary: Seq<char>) -> Seq<char> {
    let part = without_trailing(without_leading(squeezed(trimmed(summary))));
    if part.len() == 0 {
        "node"@
    } else {
        part
    }
}

proof fn lemma_squeezed_full(s: Seq<char>, n: int)
    requires
        0 <= n <= s.len(),
        squeezed(s.take(n)).len() >= SUMMARY_FILENAME_CHAR_BUDGET,
    ensures
        squeezed(s) == squeezed(s.take(n)),
    decreases s.len() - n,
{
    if n == s.len() {
        assert(s.take(n) =~= s);
    } else {
        assert(s.take(n + 1).drop_last() =~= s.take(n));
        lemma_squeezed_full(s, n + 1);
    }
}

/// The part of a file name that a summary gives: safe, short and never empty.
pub fn sanitize_summary_for_filename(summary: &str) -> (r: String)
    ensures
        r@ == file_part(summary@),
{
    let inner = trim(summary);
    let chars = to_chars(inner.as_str());
    let ghost all = inner@;
    let mut out: Vec<char> = Vec::new();
    let mut i: usize = 0;
    assert(all.take(0) =~= Seq::empty());
    while i < chars.len() && out.len() < SUMMARY_FILENAME_CHAR_BUDGET
        invariant
            i <= chars@.len(),
            chars@ == all,
            out@ == squeezed(all.take(i as int)),
        decreases chars@.len() - i,
    {
        proof {
            let upto = all.take(i + 1);
            assert(upto.drop_last() =~= all.take(i as int));
            assert(upto.last() == all[i as int]);
        }
        let c = make_safe(chars[i]);
        let n = out.len();
        let after_separator = n > 0 && out[n - 1] == '_';
        if !(c == '_' && after_separator) {
            out.push(c);
        }
        i = i + 1;
    }
    proof {
        if i < chars@.len() {
            lemma_squeezed_full(all, i as int);
        } else {
            assert(all.take(i as int) =~= all);
        }
    }
    let ghost part = squeezed(all);
    let mut from: usize = 0;
    assert(out@.skip(0) =~= out@);
    while from < out.len() && out[from] == '_'
        invariant
            from <= out@.len(),
            out@ == part,
            without_leading(part) == without_leading(out@.skip(from as int)),
        decreases out@.len() - from,
    {
        assert(out@.skip(from as int).skip(1) =~= out@.skip(from + 1));
        from = from + 1;
    }
    let mut to: usize = out.len();
    let ghost rest = out@.skip(from as int);
    assert(without_leading(part) == rest);
    assert(out@.subrange(from as int, to as int) =~= rest);
    while to > from && out[to - 1] == '_'
        invariant
            from <= to <= out@.len(),
            without_trailing(rest) == without_trailing(out@.subrange(from as int, to as int)),
        decreases to,
    {
        proof {
            let left = out@.subrange(from as int, to as int);
            assert(left.last() == out@[to - 1]);
            assert(left.drop_last() =~= out@.subrange(from as int, to - 1));
        }
        to = to - 1;
    }
    if from == to {
        assert(out@.subrange(from as int, to as int) =~= Seq::empty());
        return "node".to_owned();
    }
    proof {
        let left = out@.subrange(from as int, to as int);
        assert(left.last() == out@[to - 1]);
    }
    from_chars(&out, from, to)
}

proof fn lemma_squeezed(s: Seq<char>)
    ensures
        squeezed(s).len() <= SUMMARY_FILENAME_CHAR_BUDGET,
        forall|i: int| 0 <= i < squeezed(s).len() ==> !forbidden(#[trigger] squeezed(s)[i]),
        no_double(squeezed(s)),
    decreases s.len(),
{
    if s.len() > 0 {
        lemma_squeezed(s.drop_last());
        let before = squeezed(s.drop_last());
        assert forall|i: int, j: int|
            0 <= i && j == i + 1 && j < squeezed(s).len() && #[trigger] squeezed(s)[i]
                == '_' implies #[trigger] squeezed(s)[j] != '_' by {
            assert(squeezed(s)[i] == before[i]);
            if j < before.len() {
                assert(squeezed(s)[j] == before[j]);
            }
        }
        assert forall|i: int| 0 <= i < squeezed(s).len() implies !forbidden(
            #[trigger] squeezed(s)[i],
        ) by {
            if i < before.len() {
                assert(squeezed(s)[i] == before[i]);
            }
        }
    }
}

proof fn lemma_without_leading(s: Seq<char>)
    ensures
        without_leading(s).len() <= s.len(),
        without_leading(s) == s.skip(s.len() - without_leading(s).len()),
        without_leading(s).len() > 0 ==> without_leading(s)[0] != '_',
    decreases s.len(),
{
    if s.len() > 0 && s[0] == '_' {
        lemma_without_leading(s.skip(1));
        let n = s.len() - without_leading(s).len();
        assert(s.skip(1).skip(n - 1) =~= s.skip(n));
    } else {
        assert(s.skip(0) =~= s);
    }
}

proof fn lemma_without_trailing(s: Seq<char>)
    ensures
        without_trailing(s).len() <= s.len(),
        without_trailing(s) == s.take(without_trailing(s).len() as int),
        without_trailing(s).len() > 0 ==> without_trailing(s).last() != '_',
    decreases s.len(),
{
    if s.len() > 0 && s.last() == '_' {
        lemma_without_trailing(s.drop_last());
        let n = without_trailing(s).len() as int;
        assert(s.drop_last().take(n) =~= s.take(n));
    } else {
        assert(s.take(s.len() as int) =~= s);
    }
}

/// Whether a text is fit for a file name as it stands: not empty, within the
/// budget, free of forbidden characters and of two underscores in a row, and
/// with no underscore at either end.
pub open spec fn is_file_part(part: Seq<char>) -> bool {
    &&& 0 < part.len() <= SUMMARY_FILENAME_CHAR_BUDGET
    &&& forall|i: int| 0 <= i < part.len() ==> !forbidden(#[trigger] part[i])
    &&& no_double(part)
    &&& part[0] != '_'
    &&& part.last() != '_'
}

/// Whether no two underscores stand side by side.
pub open spec fn no_double(s: Seq<char>) -> bool {
    forall|i: int, j: int|
        0 <= i && j == i + 1 && j < s.len() && #[trigger] s[i] == '_' ==> #[trigger] s[j] != '_'
}

/// Whatever a summary holds, its part of a file name is fit for one.
pub proof fn file_parts_are_safe(summary: Seq<char>)
    ensures
        is_file_part(file_part(summary)),
{
    reveal_strlit("node");
    let s = squeezed(trimmed(summary));
    let middle = without_leading(s);
    let part = without_trailing(middle);
    lemma_squeezed(trimmed(summary));
    lemma_without_leading(s);
    lemma_without_trailing(middle);
    if part.len() > 0 {
        let skipped = s.len() - middle.len();
        assert forall|i: int| 0 <= i < part.len() implies #[trigger] part[i] == s[skipped + i] by {
            assert(part[i] == middle[i]);
        }
        assert forall|i: int| 0 <= i < part.len() implies !forbidden(#[trigger] part[i]) by {
            assert(part[i] == s[skipped + i]);
        }
        assert forall|i: int, j: int|
            0 <= i && j == i + 1 && j < part.len() && #[trigger] part[i]
                == '_' implies #[trigger] part[j] != '_' by {
            assert(part[i] == s[skipped + i]);
            assert(part[j] == s[skipped + j]);
        }
        assert(part[0] == middle[0]);
    } else {
        assert(file_part(summary) =~= seq!['n', 'o', 'd', 'e']);
    }
}

proof fn lemma_squeezed_same(s: Seq<char>)
    requires
        s.len() <= SUMMARY_FILENAME_CHAR_BUDGET,
        forall|i: int| 0 <= i < s.len() ==> !forbidden(#[trigger] s[i]),
        no_double(s),
    ensures
        squeezed(s) == s,
    decreases s.len(),
{
    if s.len() > 0 {
        let before = s.drop_last();
        assert forall|i: int| 0 <= i < before.len() implies !forbidden(#[trigger] before[i]) by {
            assert(!forbidden(s[i]));
        }
        assert(no_double(before)) by {
            assert forall|i: int, j: int|
                0 <= i && j == i + 1 && j < before.len() && #[trigger] before[i]
                    == '_' implies #[trigger] before[j] != '_' by {
                assert(s[i] == before[i] && s[j] == before[j]);
            }
        }
        lemma_squeezed_same(before);
        assert(!forbidden(s[s.len() - 1]));
        if before.len() > 0 && before.last() == '_' {
            assert(s[s.len() - 2] == '_');
            assert(s[s.len() - 1] != '_');
        }
        assert(before.push(s.last()) =~= s);
    } else {
        assert(s =~= Seq::empty());
    }
}

/// A text that is fit for a file name is its own part of one, so the part of a
/// part is that part again.
pub proof fn file_parts_stay(summary: Seq<char>)
    ensures
        forall|part: Seq<char>| is_file_part(part) ==> #[trigger] file_part(part) == part,
        file_part(file_part(summary)) == file_part(summary),
{
    assert forall|part: Seq<char>| is_file_part(part) implies #[trigger] file_part(part)
        == part by {
        assert(!forbidden(part[0]));
        assert(!forbidden(part[part.len() - 1]));
        assert(leading_white(part) == 0);
        assert(part.skip(0) =~= part);
        assert(trimmed_end(part) == part.len());
        assert(part.take(part.len() as int) =~= part);
        lemma_squeezed_same(part);
    }
    file_parts_are_safe(summary);
}

/// The name of the file of a node's memory.
pub open spec fn memory_name(node_id: Seq<char>, summary: Seq<char>) -> Seq<char> {
    node_id + "_"@ + file_part(summary) + ".md"@
}

/// The name of the file that a closed memory is kept in.
pub fn memory_file_name(entry: &SpinetreeMemoryProjectionEntry) -> (r: String)
    ensures
        r@ == memory_name(entry.node_id@, entry.summary@),
{
    let mut name = String::from_str(entry.node_id.as_str());
    name.append("_");
    name.append(sanitize_summary_for_filename(entry.summary.as_str()).as_str());
    name.append(".md");
    name
}

/// The block of one message of the user.
pub open spec fn message_block(entry: (u64, Seq<char>)) -> Seq<char> {
    "\n\n## User Message [U"@ + decimal_text(entry.0 as nat) + "]\n"@ + entry.1
}

/// The blocks of the user's messages.
pub open spec fn message_blocks(entries: Seq<(u64, Seq<char>)>) -> Seq<char>
    decreases entries.len(),
{
    if entries.len() == 0 {
        Seq::empty()
    } else {
        message_blocks(entries.drop_last()) + message_block(entries.last())
    }
}

/// The file of the user's messages.
pub open spec fn user_file(entries: Seq<(u64, Seq<char>)>) -> Seq<char> {
    "# User Messages"@ + message_blocks(entries) + "\n"@
}

/// The content of the file of the user's messages.
pub fn render_user_messages(entries: &Vec<SpinetreeUserMessageProjectionEntry>) -> (r: String)
    ensures
        r@ == user_file(projection_views(entries@)),
{
    let ghost all = projection_views(entries@);
    let mut text = String::from_str("# User Messages");
    let mut i: usize = 0;
    assert(all.take(0) =~= Seq::empty());
    assert(text@ =~= "# User Messages"@ + message_blocks(all.take(0)));
    while i < entries.len()
        invariant
            i <= entries@.len(),
            all == projection_views(entries@),
            text@ == "# User Messages"@ + message_blocks(all.take(i as int)),
        decreases entries@.len() - i,
    {
        let ghost before = text@;
        text.append("\n\n## User Message [U");
        text.append(decimal(entries[i].anchor).as_str());
        text.append("]\n");
        text.append(entries[i].body.as_str());
        proof {
            let upto = all.take(i + 1);
            assert(upto.drop_last() =~= all.take(i as int));
            assert(upto.last() == entries@[i as int]@);
            assert(text@ =~= before + message_block(all[i as int]));
            assert(text@ =~= "# User Messages"@ + message_blocks(upto));
        }
        i = i + 1;
    }
    assert(all.take(i as int) =~= all);
    text.append("\n");
    text
}

/// What is done to the file of the user's messages.
#[derive(Debug, PartialEq, Eq)]
pub enum UserFileAction {
    /// Nothing; not even a directory is made.
    Skip,
    /// The file is as it should be.
    Keep,
    Append(Vec<u8>),
    Replace(Vec<u8>),
}

/// What an action leaves in the file.
pub open spec fn after_action(existing: Option<Seq<u8>>, action: UserFileAction) -> Option<
    Seq<u8>,
> {
    match action {
        UserFileAction::Skip => existing,
        UserFileAction::Keep => existing,
        UserFileAction::Append(suffix) => match existing {
            Some(existing) => Some(existing + suffix@),
            None => Some(suffix@),
        },
        UserFileAction::Replace(body) => Some(body@),
    }
}

pub open spec fn bytes_view(bytes: Option<Vec<u8>>) -> Option<Seq<u8>> {
    match bytes {
        Some(bytes) => Some(bytes@),
        None => None,
    }
}

/// Whether one run of bytes begins another.
pub open spec fn begins(part: Seq<u8>, whole: Seq<u8>) -> bool {
    part.len() <= whole.len() && whole.take(part.len() as int) == part
}

fn starts_with(whole: &Vec<u8>, part: &Vec<u8>) -> (r: bool)
    ensures
        r == begins(part@, whole@),
{
    if part.len() > whole.len() {
        return false;
    }
    let mut i: usize = 0;
    while i < part.len()
        invariant
            i <= part@.len() <= whole@.len(),
            forall|k: int| 0 <= k < i ==> #[trigger] part@[k] == whole@[k],
        decreases part@.len() - i,
    {
        if part[i] != whole[i] {
            assert(whole@.take(part@.len() as int)[i as int] != part@[i as int]);
            return false;
        }
        i = i + 1;
    }
    assert(whole@.take(part@.len() as int) =~= part@);
    true
}

fn bytes_of(text: &str) -> (r: Vec<u8>)
    ensures
        r@ == encode_utf8(text@),
{
    let bytes = text.as_bytes();
    let mut out: Vec<u8> = Vec::new();
    let mut i: usize = 0;
    while i < bytes.len()
        invariant
            i <= bytes@.len(),
            out@ =~= bytes@.take(i as int),
        decreases bytes@.len() - i,
    {
        out.push(bytes[i]);
        i = i + 1;
    }
    assert(out@ =~= bytes@);
    out
}

/// What is done so that the file of the user's messages holds all of them: what
/// it lacks is appended where it begins as it should, and it is replaced where
/// it does not. No file is made for no messages.
pub fn user_messages_action(
    entries: &Vec<SpinetreeUserMessageProjectionEntry>,
    existing: Option<Vec<u8>>,
) -> (r: UserFileAction)
    ensures
        ({
            let body = encode_utf8(user_file(projection_views(entries@)));
            match bytes_view(existing) {
                None => if entries@.len() == 0 {
                    r is Skip
                } else {
                    r matches UserFileAction::Replace(bytes) && bytes@ == body
                },
                Some(old_body) => if old_body == body {
                    r is Keep
                } else if begins(old_body, body) {
                    r matches UserFileAction::Append(suffix) && suffix@ == body.skip(
                        old_body.len() as int,
                    )
                } else {
                    r matches UserFileAction::Replace(bytes) && bytes@ == body
                },
            }
        }),
{
    let body = bytes_of(render_user_messages(entries).as_str());
    match existing {
        None => {
            if entries.len() == 0 {
                return UserFileAction::Skip;
            }
            UserFileAction::Replace(body)
        },
        Some(existing) => {
            if !starts_with(&body, &existing) {
                assert(!begins(existing@, body@));
                assert(body@.take(body@.len() as int) =~= body@);
                return UserFileAction::Replace(body);
            }
            if existing.len() == body.len() {
                assert(body@.take(body@.len() as int) =~= body@);
                return UserFileAction::Keep;
            }
            let mut suffix: Vec<u8> = Vec::new();
            let mut i: usize = existing.len();
            while i < body.len()
                invariant
                    existing@.len() <= i <= body@.len(),
                    suffix@ =~= body@.subrange(existing@.len() as int, i as int),
                decreases body@.len() - i,
            {
                suffix.push(body[i]);
                i = i + 1;
            }
            assert(suffix@ =~= body@.skip(existing@.len() as int));
            UserFileAction::Append(suffix)
        },
    }
}

/// Whatever was in the file, afterwards it holds the user's messages; only where
/// there are none and there was no file is there still none.
pub proof fn the_user_file_is_complete(
    entries: Seq<(u64, Seq<char>)>,
    existing: Option<Seq<u8>>,
    action: UserFileAction,
)
    requires
        match existing {
            None => if entries.len() == 0 {
                action is Skip
            } else {
                action matches UserFileAction::Replace(bytes) && bytes@ == encode_utf8(
                    user_file(entries),
                )
            },
            Some(old_body) => if old_body == encode_utf8(user_file(entries)) {
                action is Keep
            } else if begins(old_body, encode_utf8(user_file(entries))) {
                action matches UserFileAction::Append(suffix) && suffix@ == encode_utf8(
                    user_file(entries),
                ).skip(old_body.len() as int)
            } else {
                action matches UserFileAction::Replace(bytes) && bytes@ == encode_utf8(
                    user_file(entries),
                )
            },
        },
    ensures
        after_action(existing, action) == if existing is None && entries.len() == 0 {
            None
        } else {
            Some(encode_utf8(user_file(entries)))
        },
{
    let body = encode_utf8(user_file(entries));
    if let Some(old_body) = existing {
        if begins(old_body, body) {
            assert(old_body + body.skip(old_body.len() as int) =~= body);
        }
    }
}

/// Whether memories are projected: not unless that is enabled, and not without
/// the reducer that closes nodes.
pub fn projection_enabled(enabled: bool, spine_jit_enabled: bool) -> (r: Result<bool, String>)
    ensures
        match r {
            Ok(projects) => projects == enabled && (enabled ==> spine_jit_enabled),
            Err(message) => enabled && !spine_jit_enabled && message@
                == "feature `spinetree_memory_projection` requires `spine_jit` because only the Spine tree reducer produces closed node memories"@,
        },
{
    if !enabled {
        return Ok(false);
    }
    if !spine_jit_enabled {
        return Err(
            "feature `spinetree_memory_projection` requires `spine_jit` because only the Spine tree reducer produces closed node memories".to_owned(),
        );
    }
    Ok(true)
}

/// The directories, below the working directory, that a session's projection is
/// kept in.
pub fn projection_layout(session_date: &str, session_id: &str) -> (r: Vec<String>)
    ensures
        r@.len() == 4,
        r@[0]@ == ".codex"@,
        r@[1]@ == "spinetree"@,
        r@[2]@ == session_date@,
        r@[3]@ == session_id@,
{
    let mut parts: Vec<String> = Vec::new();
    parts.push(".codex".to_owned());
    parts.push("spinetree".to_owned());
    parts.push(session_date.to_owned());
    parts.push(session_id.to_owned());
    parts
}

/// The layout of a day: year, month and day, with slashes between them.
pub const DAY_LAYOUT: &'static str = "%Y/%m/%d";

pub open spec fn is_digit(c: char) -> bool {
    '0' <= c && c <= '9'
}

/// Whether a text is laid out as a day: a year of four digits or more, with a
/// sign before it at most, a slash, two digits for the month, a slash, and two
/// digits for the day.
pub open spec fn is_day(text: Seq<char>) -> bool {
    &&& text.len() >= 10
    &&& text[text.len() - 6] == '/'
    &&& text[text.len() - 3] == '/'
    &&& is_digit(text[0]) || text[0] == '+' || text[0] == '-'
    &&& forall|i: int|
        0 < i < text.len() && i != text.len() - 6 && i != text.len() - 3 ==> is_digit(
            #[trigger] text[i],
        )
}

/// Calls `chrono::Local::now` and formats the moment by the layout of a day
/// (`DateTime::format`): the year is written with four digits at least, after a
/// sign where it is negative or has more than four, the month and the day with
/// two each. Which day it is depends on the clock and on the time zone, so no
/// more is claimed of it.
#[verifier::external_body]
fn local_date(layout: &str) -> (r: String)
    requires
        layout@ == DAY_LAYOUT@,
    ensures
        is_day(r@),
{
    chrono::Local::now().format(layout).to_string()
}

/// Where a session's memories are projected.
#[derive(Debug, PartialEq, Eq)]
pub struct SpinetreeMemoryProjection {
    /// The directories below the working directory.
    pub root: Vec<String>,
}

impl SpinetreeMemoryProjection {
    /// The projection of a session that begins now, where it is enabled. The day
    /// is whatever the clock says.
    pub fn from_config(session_id: &str, enabled: bool, spine_jit_enabled: bool) -> (r: Result<
        Option<Self>,
        String,
    >)
        ensures
            if !enabled {
                r == Ok::<Option<Self>, String>(None)
            } else if !spine_jit_enabled {
                r matches Err(message) && message@
                    == "feature `spinetree_memory_projection` requires `spine_jit` because only the Spine tree reducer produces closed node memories"@
            } else {
                &&& r is Ok
                &&& r->Ok_0 is Some
                &&& r->Ok_0->Some_0.root@.len() == 4
                &&& r->Ok_0->Some_0.root@[0]@ == ".codex"@
                &&& r->Ok_0->Some_0.root@[1]@ == "spinetree"@
                &&& is_day(r->Ok_0->Some_0.root@[2]@)
                &&& r->Ok_0->Some_0.root@[3]@ == session_id@
            },
    {
        match projection_enabled(enabled, spine_jit_enabled) {
            Err(message) => Err(message),
            Ok(false) => Ok(None),
            Ok(true) => {
                let session_date = local_date(DAY_LAYOUT);
                let root = projection_layout(session_date.as_str(), session_id);
                Ok(Some(SpinetreeMemoryProjection { root }))
            },
        }
    }
}

/// What is answered where something stands under a memory's name already.
/// `existing` is its text, or nothing where it is no regular file; `path` is
/// the path as it is shown.
pub open spec fn existing_outcome(
    path: Seq<char>,
    existing: Option<Seq<char>>,
    body: Seq<char>,
) -> Result<(), Seq<char>> {
    match existing {
        None => Err(
            "Spine memory projection path already exists and is not a regular file: "@ + path,
        ),
        Some(text) => if text == body {
            Ok(())
        } else {
            Err(
                "Spine memory projection file "@ + path
                    + " already exists with different content"@,
            )
        },
    }
}

/// Accepts a memory file that is already there only where it holds the memory.
/// `existing` is its text, or nothing where it is no regular file.
pub fn existing_memory(path: &str, existing: Option<&str>, body: &str) -> (r: Result<(), String>)
    ensures
        match (
            r,
            existing_outcome(
                path@,
                match existing {
                    Some(text) => Some(text@),
                    None => None,
                },
                body@,
            ),
        ) {
            (Ok(_), Ok(_)) => true,
            (Err(message), Err(expected)) => message@ == expected,
            _ => false,
        },
{
    match existing {
        None => {
            let mut message = String::from_str(
                "Spine memory projection path already exists and is not a regular file: ",
            );
            message.append(path);
            Err(message)
        },
        Some(text) => {
            if same_text(text, body) {
                return Ok(());
            }
            let mut message = String::from_str("Spine memory projection file ");
            message.append(path);
            message.append(" already exists with different content");
            Err(message)
        },
    }
}

/// What stands under a name of a session's directory.
pub ghost enum StoredMemory {
    File { body: Seq<char>, readonly: bool },
    /// Something that is no regular file.
    Other,
}

/// A memory as it is to be kept.
pub ghost struct MemoryModel {
    pub node_id: Seq<char>,
    pub summary: Seq<char>,
    pub body: Seq<char>,
}

impl View for SpinetreeMemoryProjectionEntry {
    type V = MemoryModel;

    open spec fn view(&self) -> MemoryModel {
        MemoryModel { node_id: self.node_id@, summary: self.summary@, body: self.body@ }
    }
}

/// What keeping one memory does to a session's directory: a new file is
/// published complete and read-only; one that holds the memory already is made
/// read-only; anything else stays as it is, and is the error. `shown` is how the
/// path of a name is shown.
pub open spec fn keep_step(
    directory: Map<Seq<char>, StoredMemory>,
    entry: MemoryModel,
    shown: spec_fn(Seq<char>) -> Seq<char>,
) -> (Map<Seq<char>, StoredMemory>, Result<(), Seq<char>>) {
    let name = memory_name(entry.node_id, entry.summary);
    let kept = directory.insert(name, StoredMemory::File { body: entry.body, readonly: true });
    if !directory.contains_key(name) {
        (kept, Ok(()))
    } else {
        let existing = match directory[name] {
            StoredMemory::File { body, .. } => Some(body),
            StoredMemory::Other => None,
        };
        match existing_outcome(shown(name), existing, entry.body) {
            Ok(_) => (kept, Ok(())),
            Err(message) => (directory, Err(message)),
        }
    }
}

/// Keeps memories in order, up to the first error.
pub open spec fn keep_steps(
    directory: Map<Seq<char>, StoredMemory>,
    entries: Seq<MemoryModel>,
    shown: spec_fn(Seq<char>) -> Seq<char>,
) -> (Map<Seq<char>, StoredMemory>, Result<(), Seq<char>>)
    decreases entries.len(),
{
    if entries.len() == 0 {
        (directory, Ok(()))
    } else {
        let first = keep_step(directory, entries[0], shown);
        if first.1 is Ok {
            keep_steps(first.0, entries.skip(1), shown)
        } else {
            first
        }
    }
}

/// A memory that was kept is never overwritten: to keep one of the same node
/// and summary again is accepted where it has the same body and refused where
/// it has another, and either way the directory is as it was: the file holds
/// the first body and is read-only.
pub proof fn kept_memories_are_immutable(
    directory: Map<Seq<char>, StoredMemory>,
    first: MemoryModel,
    again: MemoryModel,
    shown: spec_fn(Seq<char>) -> Seq<char>,
)
    requires
        keep_steps(directory, seq![first], shown).1 is Ok,
        again.node_id == first.node_id,
        again.summary == first.summary,
    ensures
        ({
            let name = memory_name(first.node_id, first.summary);
            let kept = keep_steps(directory, seq![first], shown).0;
            let second = keep_steps(kept, seq![again], shown);
            &&& kept.contains_key(name)
            &&& kept[name] == StoredMemory::File { body: first.body, readonly: true }
            &&& second.0 == kept
            &&& second.1 == if again.body == first.body {
                Ok(())
            } else {
                Err(
                    "Spine memory projection file "@ + shown(name)
                        + " already exists with different content"@,
                )
            }
        }),
{
    let kept = keep_step(directory, first, shown).0;
    reveal_with_fuel(keep_steps, 2);
    assert(seq![first].skip(1) =~= Seq::empty());
    assert(seq![again].skip(1) =~= Seq::empty());
    assert(seq![first][0] == first);
    assert(seq![again][0] == again);
    let second = keep_step(kept, again, shown);
    assert(second.0 =~= kept);
}

/// Keeping memories leaves every file that is there with the body that it has.
pub proof fn keeping_overwrites_nothing(
    directory: Map<Seq<char>, StoredMemory>,
    entries: Seq<MemoryModel>,
    shown: spec_fn(Seq<char>) -> Seq<char>,
    name: Seq<char>,
)
    requires
        directory.contains_key(name),
    ensures
        ({
            let after = keep_steps(directory, entries, shown).0;
            &&& after.contains_key(name)
            &&& match directory[name] {
                StoredMemory::File { body, readonly } => after[name] matches StoredMemory::File {
                    body: left,
                    readonly: still,
                } && left == body && (readonly ==> still),
                StoredMemory::Other => after[name] == StoredMemory::Other,
            }
        }),
    decreases entries.len(),
{
    if entries.len() > 0 {
        let first = keep_step(directory, entries[0], shown);
        if first.1 is Ok {
            keeping_overwrites_nothing(first.0, entries.skip(1), shown, name);
        }
    }
}

/// No separator of paths, quote, wildcard, control character or white space may
/// stand in a file name; letters, digits, `-`, `.` and `_` may.
pub proof fn what_a_file_name_may_hold(c: char)
    ensures
        c == '/' || c == '\\' || c == ':' || c == '*' || c == '?' || c == '"' || c == '<' || c == '>'
            || c == '|' || c == ' ' || (c as u32) < 32 || 127 <= c as u32 <= 159 ==> forbidden(c),
        'a' <= c <= 'z' || 'A' <= c <= 'Z' || '0' <= c <= '9' || c == '-' || c == '.' || c == '_'
            ==> !forbidden(c),
        32 < c as u32 && (c as u32) < 127 && !(c == '/' || c == '\\' || c == ':' || c == '*' || c
            == '?' || c == '"' || c == '<' || c == '>' || c == '|') ==> !forbidden(c),
{
}

/// Where something forbidden stands between two parts of a file name, one
/// underscore stands for it.
pub proof fn what_is_forbidden_becomes_an_underscore(p: Seq<char>, c: char, q: Seq<char>)
    requires
        is_file_part(p),
        is_file_part(q),
        p.len() + 1 + q.len() <= 96,
        forbidden(c),
    ensures
        file_part(p + seq![c] + q) == p + seq!['_'] + q,
{
    let s = p + seq![c] + q;
    let t = p + seq!['_'] + q;
    lemma_joined(p, c, q, q.len() as int);
    assert(q.take(q.len() as int) =~= q);
    assert(!forbidden(p[0]) && !forbidden(q[q.len() - 1]));
    assert(s[0] == p[0] && s.last() == q.last());
    assert(leading_white(s) == 0);
    assert(s.skip(0) =~= s);
    assert(trimmed_end(s) == s.len());
    assert(s.take(s.len() as int) =~= s);
    assert(t[0] == p[0] && t.last() == q.last());
}

proof fn lemma_joined(p: Seq<char>, c: char, q: Seq<char>, k: int)
    requires
        is_file_part(p),
        is_file_part(q),
        p.len() + 1 + q.len() <= 96,
        forbidden(c),
        0 <= k <= q.len(),
    ensures
        squeezed(p + seq![c] + q.take(k)) == p + seq!['_'] + q.take(k),
    decreases k,
{
    let s = p + seq![c] + q.take(k);
    if k == 0 {
        lemma_squeezed_same(p);
        assert(s.drop_last() =~= p);
        assert(s.last() == c);
        assert(squeezed(s) =~= p + seq!['_'] + q.take(k));
    } else {
        lemma_joined(p, c, q, k - 1);
        assert(s.drop_last() =~= p + seq![c] + q.take(k - 1));
        assert(s.last() == q[k - 1]);
        let before = p + seq!['_'] + q.take(k - 1);
        assert(!forbidden(q[k - 1]));
        if k == 1 {
            assert(before.last() == '_');
        } else {
            assert(before.last() == q[k - 2]);
        }
        assert(squeezed(s) =~= p + seq!['_'] + q.take(k));
    }
}

/// The file of a memory is named by its node first, then by its summary; it is a
/// Markdown file.
pub proof fn a_memory_is_named_by_its_node(node_id: Seq<char>, summary: Seq<char>)
    ensures
        memory_name(node_id, summary) == node_id + seq!['_'] + file_part(summary) + seq![
            '.',
            'm',
            'd',
        ],
        node_id.is_prefix_of(memory_name(node_id, summary)),
{
    reveal_strlit("_");
    reveal_strlit(".md");
    assert("_"@ =~= seq!['_']);
    assert(".md"@ =~= seq!['.', 'm', 'd']);
}

/// Every message of the user is in the file, whole and under its number, and the
/// messages are in order.
pub proof fn every_user_message_is_written(
    above: Seq<(u64, Seq<char>)>,
    number: u64,
    body: Seq<char>,
    below: Seq<(u64, Seq<char>)>,
)
    ensures
        user_file(above.push((number, body)) + below) == "# User Messages"@ + message_blocks(above)
            + ("\n\n## User Message [U"@ + decimal_text(number as nat) + "]\n"@ + body)
            + message_blocks(below) + "\n"@,
        message_blocks(Seq::empty()).len() == 0,
        message_blocks(above + below) == message_blocks(above) + message_blocks(below),
    decreases below.len(),
{
    lemma_blocks_add(above.push((number, body)), below);
    lemma_blocks_add(above, below);
    assert(above.push((number, body)).drop_last() =~= above);
    assert(user_file(above.push((number, body)) + below) =~= "# User Messages"@ + message_blocks(
        above,
    ) + ("\n\n## User Message [U"@ + decimal_text(number as nat) + "]\n"@ + body) + message_blocks(
        below,
    ) + "\n"@);
}

proof fn lemma_blocks_add(above: Seq<(u64, Seq<char>)>, below: Seq<(u64, Seq<char>)>)
    ensures
        message_blocks(above + below) == message_blocks(above) + message_blocks(below),
    decreases below.len(),
{
    if below.len() == 0 {
        assert(above + below =~= above);
        assert(message_blocks(above) + message_blocks(below) =~= message_blocks(above));
    } else {
        lemma_blocks_add(above, below.drop_last());
        assert((above + below).drop_last() =~= above + below.drop_last());
        assert((above + below).last() == below.last());
        assert(message_blocks(above + below) =~= message_blocks(above) + message_blocks(below));
    }
}

/// What stands under a memory's name is accepted exactly where it is a file with
/// the memory's text.
pub proof fn only_the_same_memory_is_accepted(
    path: Seq<char>,
    existing: Option<Seq<char>>,
    body: Seq<char>,
)
    ensures
        existing_outcome(path, existing, body) is Ok <==> existing == Some(body),
{
}

/// Where keeping memories goes well, every one of them is in its file, whole and
/// read-only.
pub proof fn all_memories_are_kept(
    directory: Map<Seq<char>, StoredMemory>,
    entries: Seq<MemoryModel>,
    shown: spec_fn(Seq<char>) -> Seq<char>,
    i: int,
)
    requires
        keep_steps(directory, entries, shown).1 is Ok,
        0 <= i < entries.len(),
    ensures
        ({
            let after = keep_steps(directory, entries, shown).0;
            let name = memory_name(entries[i].node_id, entries[i].summary);
            after.contains_key(name) && after[name] == (StoredMemory::File {
                body: entries[i].body,
                readonly: true,
            })
        }),
    decreases entries.len(),
{
    let first = keep_step(directory, entries[0], shown);
    let rest = entries.skip(1);
    if i > 0 {
        assert(rest[i - 1] == entries[i]);
        all_memories_are_kept(first.0, rest, shown, i - 1);
    } else {
        let name = memory_name(entries[0].node_id, entries[0].summary);
        keeping_overwrites_nothing(first.0, rest, shown, name);
    }
}

/// A file that belongs to no memory is left alone.
pub proof fn other_files_are_left_alone(
    directory: Map<Seq<char>, StoredMemory>,
    entries: Seq<MemoryModel>,
    shown: spec_fn(Seq<char>) -> Seq<char>,
    name: Seq<char>,
)
    requires
        forall|i: int|
            0 <= i < entries.len() ==> memory_name(
                (#[trigger] entries[i]).node_id,
                entries[i].summary,
            ) != name,
    ensures
        keep_steps(directory, entries, shown).0.contains_key(name) <==> directory.contains_key(name),
        directory.contains_key(name) ==> keep_steps(directory, entries, shown).0[name]
            == directory[name],
    decreases entries.len(),
{
    if entries.len() > 0 {
        let rest = entries.skip(1);
        assert(memory_name(entries[0].node_id, entries[0].summary) != name);
        assert forall|i: int| 0 <= i < rest.len() implies memory_name(
            (#[trigger] rest[i]).node_id,
            rest[i].summary,
        ) != name by {
            assert(rest[i] == entries[i + 1]);
        }
        other_files_are_left_alone(
            keep_step(directory, entries[0], shown).0,
            rest,
            shown,
            name,
        );
    }
}

/// A day with a year of four digits is written as that year, a slash, two
/// digits, a slash and two digits.
pub proof fn a_day_is_year_month_and_day(text: Seq<char>)
    requires
        is_day(text),
        text.len() == 10,
        text[0] != '+',
        text[0] != '-',
    ensures
        text[4] == '/' && text[7] == '/',
        forall|i: int| 0 <= i < 10 && i != 4 && i != 7 ==> '0' <= #[trigger] text[i] <= '9',
{
}

/// A file that is there is left alone where it has the same text; else the error
/// says whether it is no file or another one, and where.
pub proof fn an_existing_file_is_never_replaced(
    path: Seq<char>,
    existing: Option<Seq<char>>,
    body: Seq<char>,
)
    ensures
        existing_outcome(path, existing, body) is Ok <==> existing == Some(body),
        existing is None ==> existing_outcome(path, existing, body) == Err::<(), Seq<char>>(
            "Spine memory projection path already exists and is not a regular file: "@ + path,
        ),
        existing matches Some(text) ==> text != body ==> existing_outcome(path, existing, body)
            == Err::<(), Seq<char>>(
            "Spine memory projection file "@ + path + " already exists with different content"@,
        ),
{
}

} // verus!

//! The installed binary: where it lies, which one it is, and what version it
//! says it is.

use crate::json::{field, parse_json, text_value, Json};
use sha2::Digest;
use vstd::prelude::*;

verus! {

use crate::json::{field_of, json_value, text_of};
use vstd::utf8::encode_utf8;

/// The name of the binary.
pub open spec fn binary_name(windows: bool) -> Seq<char> {
    if windows {
        "codex.exe"@
    } else {
        "codex"@
    }
}

pub fn managed_codex_file_name(windows: bool) -> (r: &'static str)
    ensures
        r@ == binary_name(windows),
{
    if windows {
        "codex.exe"
    } else {
        "codex"
    }
}

/// The parts of the binary's path below the home directory.
pub fn managed_codex_bin(windows: bool) -> (r: Vec<&'static str>)
    ensures
        r@.len() == 4,
        r@[0]@ == "packages"@,
        r@[1]@ == "standalone"@,
        r@[2]@ == "current"@,
        r@[3]@ == binary_name(windows),
{
    let mut parts: Vec<&'static str> = Vec::new();
    parts.push("packages");
    parts.push("standalone");
    parts.push("current");
    parts.push(managed_codex_file_name(windows));
    parts
}

/// What an executable is told apart by.
#[derive(Clone, Copy, Debug, PartialEq, Eq)]
pub struct ExecutableIdentity {
    pub digest: [u8; 32],
}

/// The SHA-256 digest of bytes.
pub uninterp spec fn sha256(bytes: Seq<u8>) -> Seq<u8>;

/// Calls `sha2::Sha256::digest`. The digest depends on the bytes alone;
/// [`sha256`] names it.
#[verifier::external_body]
fn sha256_digest(bytes: &[u8]) -> (r: [u8; 32])
    ensures
        r@ == sha256(bytes@),
{
    sha2::Sha256::digest(bytes).into()
}

/// The identity of an executable with the given contents.
pub fn executable_identity_from_bytes(bytes: &[u8]) -> (r: ExecutableIdentity)
    ensures
        r.digest@ == sha256(bytes@),
{
    ExecutableIdentity { digest: sha256_digest(bytes) }
}

/// Why the version of a binary is not known.
#[derive(Debug, PartialEq, Eq)]
pub enum ProbeError {
    Exited { binary: String, status: String },
    NotUtf8 { binary: String },
    Malformed,
    NoVersion,
}

/// What a probe error says.
pub open spec fn probe_error_text(error: ProbeError) -> Seq<char> {
    match error {
        ProbeError::Exited { binary, status } => "managed Codex binary "@ + binary@
            + " exited with status "@ + status@,
        ProbeError::NotUtf8 { binary } => "managed Codex version was not utf-8: "@ + binary@,
        ProbeError::Malformed => "managed Codex product probe returned malformed JSON-RPC"@,
        ProbeError::NoVersion =>
            "managed Codex MCP initialization did not return a product version"@,
    }
}

impl ProbeError {
    pub fn message(&self) -> (r: String)
        ensures
            r@ == probe_error_text(*self),
    {
        match self {
            ProbeError::Exited { binary, status } => {
                let mut text = String::from_str("managed Codex binary ");
                text.append(binary.as_str());
                text.append(" exited with status ");
                text.append(status.as_str());
                text
            },
            ProbeError::NotUtf8 { binary } => {
                let mut text = String::from_str("managed Codex version was not utf-8: ");
                text.append(binary.as_str());
                text
            },
            ProbeError::Malformed => String::from_str(
                "managed Codex product probe returned malformed JSON-RPC",
            ),
            ProbeError::NoVersion => String::from_str(
                "managed Codex MCP initialization did not return a product version",
            ),
        }
    }
}

/// The lines of an output: they end in a line feed, which a carriage return may
/// precede; what follows the last line feed is a line unless it is empty.
pub open spec fn output_lines(output: Seq<u8>) -> Seq<Seq<u8>>
    decreases output.len(),
{
    if output.len() == 0 {
        Seq::empty()
    } else {
        let end = feed_position(output) as int;
        if end >= output.len() {
            seq![output]
        } else {
            seq![without_return(output.take(end))] + output_lines(output.skip(end + 1))
        }
    }
}

/// The position of the first line feed, or the length.
pub open spec fn feed_position(output: Seq<u8>) -> nat
    decreases output.len(),
{
    if output.len() == 0 || output[0] == 10u8 {
        0
    } else {
        1 + feed_position(output.skip(1))
    }
}

/// A line without the carriage return at its end.
pub open spec fn without_return(line: Seq<u8>) -> Seq<u8> {
    if line.len() > 0 && line.last() == 13u8 {
        line.drop_last()
    } else {
        line
    }
}

/// The JSON values on lines, or nothing where a line holds none.
pub open spec fn values_of(lines: Seq<Seq<u8>>) -> Option<Seq<Json>>
    decreases lines.len(),
{
    if lines.len() == 0 {
        Some(Seq::empty())
    } else {
        match (values_of(lines.drop_last()), json_value(lines.last())) {
            (Some(values), Some(value)) => Some(values.push(value)),
            _ => None,
        }
    }
}

/// Whether a response is the one to the request with the number one.
pub open spec fn answers_request(response: Json) -> bool {
    field_of(Some(response), "id"@) == Some(Json::Unsigned(1))
}

/// The version in a response, where it names one.
pub open spec fn version_in(response: Json) -> Option<Seq<char>> {
    let info = field_of(field_of(Some(response), "result"@), "serverInfo"@);
    match text_of(field_of(info, "version"@)) {
        Some(version) => if version.len() > 0 {
            Some(version)
        } else {
            None
        },
        None => None,
    }
}

/// The version in the first response to the request.
pub open spec fn answered_version(responses: Seq<Json>) -> Option<Seq<char>>
    decreases responses.len(),
{
    if responses.len() == 0 {
        None
    } else if answers_request(responses[0]) {
        version_in(responses[0])
    } else {
        answered_version(responses.skip(1))
    }
}

fn response_answers(response: &Json) -> (r: bool)
    ensures
        r == answers_request(*response),
{
    match field(Some(response), "id") {
        Some(Json::Unsigned(number)) => *number == 1,
        _ => false,
    }
}

/// Finds the version in the first response to the request.
pub fn version_from_responses(responses: &Vec<Json>) -> (r: Result<String, ProbeError>)
    ensures
        match answered_version(responses@) {
            Some(version) => r matches Ok(text) && text@ == version,
            None => r == Err::<String, ProbeError>(ProbeError::NoVersion),
        },
{
    let mut i: usize = 0;
    assert(responses@.skip(0) =~= responses@);
    while i < responses.len()
        invariant
            i <= responses@.len(),
            answered_version(responses@.skip(i as int)) == answered_version(responses@),
        decreases responses@.len() - i,
    {
        assert(responses@.skip(i as int)[0] == responses@[i as int]);
        assert(responses@.skip(i as int).skip(1) =~= responses@.skip(i + 1));
        if response_answers(&responses[i]) {
            let info = field(field(Some(&responses[i]), "result"), "serverInfo");
            return match text_value(field(info, "version")) {
                Some(version) => {
                    if version.is_empty() {
                        assert(version@.len() == 0);
                        Err(ProbeError::NoVersion)
                    } else {
                        Ok(version.to_owned())
                    }
                },
                None => Err(ProbeError::NoVersion),
            };
        }
        i = i + 1;
    }
    Err(ProbeError::NoVersion)
}

proof fn lemma_feed_position(output: Seq<u8>, at: int)
    requires
        0 <= at <= output.len(),
        forall|k: int| 0 <= k < at ==> output[k] != 10u8,
        at < output.len() ==> output[at] == 10u8,
    ensures
        feed_position(output) == at,
    decreases output.len(),
{
    if at > 0 {
        let rest = output.skip(1);
        assert(output[0] != 10u8);
        assert forall|k: int| 0 <= k < at - 1 implies rest[k] != 10u8 by {
            assert(output[k + 1] != 10u8);
        }
        lemma_feed_position(rest, at - 1);
    }
}

proof fn lemma_first_malformed(lines: Seq<Seq<u8>>, n: int)
    requires
        0 <= n <= lines.len(),
        values_of(lines.take(n)) is None,
    ensures
        values_of(lines) is None,
    decreases lines.len() - n,
{
    if n == lines.len() {
        assert(lines.take(n) =~= lines);
    } else {
        assert(lines.take(n + 1).drop_last() =~= lines.take(n));
        lemma_first_malformed(lines, n + 1);
    }
}

/// What a probe's output says of the version.
pub open spec fn probed_version(output: Seq<u8>) -> Result<Seq<char>, ProbeError> {
    match values_of(output_lines(output)) {
        None => Err(ProbeError::Malformed),
        Some(responses) => match answered_version(responses) {
            Some(version) => Ok(version),
            None => Err(ProbeError::NoVersion),
        },
    }
}

fn output_responses(output: &[u8]) -> (r: Option<Vec<Json>>)
    ensures
        match (r, values_of(output_lines(output@))) {
            (Some(responses), Some(values)) => responses@ == values,
            (None, None) => true,
            _ => false,
        },
{
    let ghost all = output_lines(output@);
    let mut responses: Vec<Json> = Vec::new();
    let ghost mut n: int = 0;
    let mut start: usize = 0;
    assert(output.len() == output@.len());
    proof {
        assert(output@.skip(0) =~= output@);
        assert(all.take(0) =~= Seq::<Seq<u8>>::empty());
        assert(all.skip(0) =~= all);
    }
    while start < output.len()
        invariant
            start <= output@.len(),
            output.len() == output@.len(),
            all == output_lines(output@),
            0 <= n <= all.len(),
            all.skip(n) == output_lines(output@.skip(start as int)),
            values_of(all.take(n)) == Some(responses@),
        decreases output@.len() - start,
    {
        let ghost rest = output@.skip(start as int);
        let mut end: usize = start;
        while end < output.len() && output[end] != 10
            invariant
                start <= end <= output@.len(),
                output.len() == output@.len(),
                forall|k: int| start <= k < end ==> output@[k] != 10u8,
            decreases output@.len() - end,
        {
            end = end + 1;
        }
        proof {
            assert forall|k: int| 0 <= k < end - start implies rest[k] != 10u8 by {
                assert(output@[start + k] != 10u8);
            }
            lemma_feed_position(rest, end - start);
        }
        let last = end == output.len();
        let stop = if !last && end > start && output[end - 1] == 13 {
            end - 1
        } else {
            end
        };
        let line = vstd::slice::slice_subrange(output, start, stop);
        let ghost lines_left = output_lines(rest);
        proof {
            if last {
                assert(rest =~= line@);
                assert(lines_left =~= seq![line@]);
            } else {
                assert(rest.take(end - start) =~= output@.subrange(start as int, end as int));
                assert(without_return(rest.take(end - start)) =~= line@);
                assert(rest.skip(end - start + 1) =~= output@.skip(end + 1));
                assert(lines_left =~= seq![line@] + output_lines(output@.skip(end + 1)));
            }
            assert(lines_left[0] == line@);
            assert(all[n] == all.skip(n)[0]);
            let upto = all.take(n + 1);
            assert(upto.drop_last() =~= all.take(n));
            assert(upto.last() == line@);
        }
        match parse_json(line) {
            None => {
                proof {
                    lemma_first_malformed(all, n + 1);
                }
                return None;
            },
            Some(value) => {
                responses.push(value);
            },
        }
        proof {
            assert(all.skip(n + 1) =~= all.skip(n).skip(1));
            assert(lines_left.skip(1) =~= output_lines(
                output@.skip(if last { end as int } else { end + 1 }),
            )) by {
                if last {
                    assert(output@.skip(end as int) =~= Seq::<u8>::empty());
                }
            }
            n = n + 1;
        }
        start = if last {
            end
        } else {
            end + 1
        };
    }
    proof {
        assert(output@.skip(start as int) =~= Seq::<u8>::empty());
        assert(all.skip(n).len() == 0);
        assert(all.take(n) =~= all);
    }
    Some(responses)
}

/// How the probed binary ended, and what it wrote where that is UTF-8.
#[derive(Debug)]
pub struct ProbeOutput {
    pub success: bool,
    pub status: String,
    pub stdout: Option<String>,
}

/// The version that a probe's outcome tells, or why it tells none.
pub open spec fn told_version(binary: Seq<char>, output: ProbeOutput) -> Result<
    Seq<char>,
    Seq<char>,
> {
    if !output.success {
        Err("managed Codex binary "@ + binary + " exited with status "@ + output.status@)
    } else {
        match output.stdout {
            None => Err("managed Codex version was not utf-8: "@ + binary),
            Some(stdout) => match probed_version(encode_utf8(stdout@)) {
                Ok(version) => Ok(version),
                Err(error) => Err(probe_error_text(error)),
            },
        }
    }
}

/// Reads the version out of a probe's outcome.
pub fn managed_codex_version(binary: &str, output: &ProbeOutput) -> (r: Result<String, ProbeError>)
    ensures
        match (r, told_version(binary@, *output)) {
            (Ok(version), Ok(expected)) => version@ == expected,
            (Err(error), Err(message)) => probe_error_text(error) == message,
            _ => false,
        },
{
    if !output.success {
        return Err(
            ProbeError::Exited { binary: binary.to_owned(), status: output.status.clone() },
        );
    }
    match &output.stdout {
        None => Err(ProbeError::NotUtf8 { binary: binary.to_owned() }),
        Some(stdout) => {
            let bytes = stdout.as_str().as_bytes();
            match output_responses(bytes) {
                None => Err(ProbeError::Malformed),
                Some(responses) => version_from_responses(&responses),
            }
        },
    }
}

/// The binary has the ending of an executable on Windows and nowhere else.
pub proof fn the_binary_is_named_for_its_system(windows: bool)
    ensures
        windows ==> binary_name(windows) == seq!['c', 'o', 'd', 'e', 'x', '.', 'e', 'x', 'e'],
        !windows ==> binary_name(windows) == seq!['c', 'o', 'd', 'e', 'x'],
{
    reveal_strlit("codex.exe");
    reveal_strlit("codex");
    assert("codex.exe"@ =~= seq!['c', 'o', 'd', 'e', 'x', '.', 'e', 'x', 'e']);
    assert("codex"@ =~= seq!['c', 'o', 'd', 'e', 'x']);
}

/// A line ends at its line feed, whatever follows; what follows the last line
/// feed is a line of its own unless it is empty.
pub proof fn a_line_feed_ends_a_line(line: Seq<u8>, rest: Seq<u8>)
    requires
        !line.contains(10u8),
    ensures
        output_lines(line + seq![10u8] + rest) == seq![
            (if line.len() > 0 && line.last() == 13u8 {
                line.drop_last()
            } else {
                line
            }),
        ] + output_lines(rest),
        line.len() > 0 ==> output_lines(line) == seq![line],
        output_lines(Seq::empty()) == Seq::<Seq<u8>>::empty(),
{
    let whole = line + seq![10u8] + rest;
    lemma_feed(line, seq![10u8] + rest);
    assert(whole =~= line + (seq![10u8] + rest));
    assert(whole.take(line.len() as int) =~= line);
    assert(whole.skip(line.len() as int + 1) =~= rest);
    lemma_feed(line, Seq::empty());
    assert(line + Seq::<u8>::empty() =~= line);
}

proof fn lemma_feed(line: Seq<u8>, tail: Seq<u8>)
    requires
        !line.contains(10u8),
        tail.len() > 0 ==> tail[0] == 10u8,
    ensures
        feed_position(line + tail) == line.len(),
    decreases line.len(),
{
    if line.len() > 0 {
        let rest = line.skip(1);
        assert(line[0] != 10u8);
        assert forall|i: int| 0 <= i < rest.len() implies rest[i] != 10u8 by {
            assert(rest[i] == line[i + 1]);
        }
        lemma_feed(rest, tail);
        assert((line + tail).skip(1) =~= rest + tail);
        assert((line + tail)[0] == line[0]);
    } else {
        assert(line + tail =~= tail);
    }
}

/// There are values exactly where every line holds one, and then there is one
/// for each line, in order.
pub proof fn every_line_is_read(lines: Seq<Seq<u8>>)
    ensures
        values_of(lines) is Some <==> forall|i: int|
            0 <= i < lines.len() ==> json_value(#[trigger] lines[i]) is Some,
        values_of(lines) matches Some(values) ==> {
            &&& values.len() == lines.len()
            &&& forall|i: int|
                0 <= i < lines.len() ==> json_value(#[trigger] lines[i]) == Some(values[i])
        },
    decreases lines.len(),
{
    if lines.len() > 0 {
        let rest = lines.drop_last();
        every_line_is_read(rest);
        assert forall|i: int| 0 <= i < rest.len() implies rest[i] == lines[i] by {}
        if values_of(lines) is Some {
            let values = values_of(lines)->0;
            assert forall|i: int| 0 <= i < lines.len() implies json_value(#[trigger] lines[i])
                == Some(values[i]) by {
                if i < rest.len() {
                    assert(json_value(rest[i]) is Some);
                }
            }
        } else if values_of(rest) is None {
            let i = choose|i: int| 0 <= i < rest.len() && json_value(#[trigger] rest[i]) is None;
            assert(json_value(lines[i]) is None);
        } else {
            assert(json_value(lines[lines.len() - 1]) is None);
        }
    }
}

/// The version is looked up in the first response with the number of the
/// request, and in no other.
pub proof fn the_first_answer_counts(responses: Seq<Json>, i: int)
    requires
        0 <= i < responses.len(),
        field_of(Some(responses[i]), "id"@) == Some(Json::Unsigned(1)),
        forall|j: int|
            0 <= j < i ==> field_of(Some(#[trigger] responses[j]), "id"@) != Some(
                Json::Unsigned(1),
            ),
    ensures
        answered_version(responses) == version_in(responses[i]),
    decreases i,
{
    if i > 0 {
        assert(field_of(Some(responses[0]), "id"@) != Some(Json::Unsigned(1)));
        let rest = responses.skip(1);
        assert(rest[i - 1] == responses[i]);
        assert forall|j: int| 0 <= j < i - 1 implies field_of(Some(#[trigger] rest[j]), "id"@)
            != Some(Json::Unsigned(1)) by {
            assert(rest[j] == responses[j + 1]);
        }
        the_first_answer_counts(rest, i - 1);
    }
}

/// Without an answer to the request no version is known.
pub proof fn without_an_answer_no_version_is_known(responses: Seq<Json>)
    requires
        forall|j: int|
            0 <= j < responses.len() ==> field_of(Some(#[trigger] responses[j]), "id"@) != Some(
                Json::Unsigned(1),
            ),
    ensures
        answered_version(responses) is None,
    decreases responses.len(),
{
    if responses.len() > 0 {
        assert(field_of(Some(responses[0]), "id"@) != Some(Json::Unsigned(1)));
        let rest = responses.skip(1);
        assert forall|j: int| 0 <= j < rest.len() implies field_of(Some(#[trigger] rest[j]), "id"@)
            != Some(Json::Unsigned(1)) by {
            assert(rest[j] == responses[j + 1]);
        }
        without_an_answer_no_version_is_known(rest);
    }
}

/// A response tells a version exactly where the server's information in its
/// result names one that is not empty, and then it is that one.
pub proof fn a_version_is_what_the_server_says(response: Json)
    ensures
        ({
            let info = field_of(field_of(Some(response), "result"@), "serverInfo"@);
            &&& version_in(response) matches Some(version) ==> version.len() > 0 && (field_of(
                info,
                "version"@,
            ) matches Some(Json::Text(text)) && text@ == version)
            &&& field_of(info, "version"@) matches Some(Json::Text(text)) ==> text@.len() > 0
                ==> version_in(response) == Some(text@)
        }),
{
}

/// A probe tells a version only where the binary succeeded, wrote UTF-8 and
/// every line of it is JSON; else it says which of these failed.
pub proof fn a_failed_probe_says_why(binary: Seq<char>, output: ProbeOutput)
    ensures
        !output.success ==> told_version(binary, output) == Err::<Seq<char>, Seq<char>>(
            "managed Codex binary "@ + binary + " exited with status "@ + output.status@,
        ),
        output.success && output.stdout is None ==> told_version(binary, output) == Err::<
            Seq<char>,
            Seq<char>,
        >("managed Codex version was not utf-8: "@ + binary),
        output.success ==> (output.stdout matches Some(stdout) ==> match values_of(
            output_lines(encode_utf8(stdout@)),
        ) {
            None => told_version(binary, output) == Err::<Seq<char>, Seq<char>>(
                "managed Codex product probe returned malformed JSON-RPC"@,
            ),
            Some(responses) => match answered_version(responses) {
                None => told_version(binary, output) == Err::<Seq<char>, Seq<char>>(
                    "managed Codex MCP initialization did not return a product version"@,
                ),
                Some(version) => told_version(binary, output) == Ok::<Seq<char>, Seq<char>>(
                    version,
                ),
            },
        }),
{
}

/// What each probe error says.
pub proof fn probe_errors_say_what_failed(binary: String, status: String)
    ensures
        probe_error_text(ProbeError::Exited { binary, status }) == "managed Codex binary "@
            + binary@ + " exited with status "@ + status@,
        probe_error_text(ProbeError::NotUtf8 { binary })
            == "managed Codex version was not utf-8: "@ + binary@,
        probe_error_text(ProbeError::Malformed)
            == "managed Codex product probe returned malformed JSON-RPC"@,
        probe_error_text(ProbeError::NoVersion)
            == "managed Codex MCP initialization did not return a product version"@,
{
}

} // verus!

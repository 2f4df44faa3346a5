//! Model-visible fragments that Spine writes into the conversation.

use crate::text::{byte_size, decimal, is_blank, parse_number, to_chars, trim};
use vstd::prelude::*;

verus! {

use crate::text::{
    blank, byte_len, decimal_text, leading_white, lemma_encode_concat, number_text, trimmed,
    trimmed_end,
};
use crate::text_laws::a_number_reads_back;

/// The largest rendered fragment, in bytes. It leaves an allowance for the
/// enclosing item's JSON, which the model-item gate checks.
pub const MAX_SPINE_FRAGMENT_BYTES: usize = 8_000;

/// The largest complete Spine-owned provider value, in serialized bytes: a
/// fragment and a 1,000-byte allowance for the JSON around it.
pub const MAX_SPINE_MODEL_ITEM_WIRE_BYTES: usize = 9_000;

#[derive(Clone, Copy, Debug, PartialEq, Eq, Structural)]
pub enum NodeStatus {
    Live,
    Opened,
    Closed,
    Compacted,
}

/// What a node costs of the context window, where that is known.
#[derive(Clone, Copy, Debug, PartialEq, Eq, Structural)]
pub enum NodeContextCost {
    Unavailable,
    Percentage(u64),
}

#[derive(Clone, Copy, Debug, PartialEq, Eq, Structural)]
pub enum SpawnOutcome {
    Completed,
    Errored,
    Aborted,
}

/// The role that a fragment is sent under.
#[derive(Clone, Copy, Debug, PartialEq, Eq, Structural)]
pub enum FragmentRole {
    User,
    Developer,
}

impl FragmentRole {
    /// The role's wire name.
    pub fn name(self) -> (r: &'static str)
        ensures
            r@ == (match self {
                FragmentRole::User => "user"@,
                FragmentRole::Developer => "developer"@,
            }),
    {
        match self {
            FragmentRole::User => "user",
            FragmentRole::Developer => "developer",
        }
    }
}

/// What kind of content a fragment is, beside its text.
#[derive(Clone, Copy, Debug, PartialEq, Eq, Structural)]
pub enum ContentItemKind {
    MultiAgentModeInstructions,
    Node,
    Memory,
    SpawnEvidence,
    UserAnchor,
}

impl ContentItemKind {
    /// The kind's wire name.
    pub fn name(self) -> (r: &'static str)
        ensures
            r@ == (match self {
                ContentItemKind::MultiAgentModeInstructions => "multi_agent.mode_instructions"@,
                ContentItemKind::Node => "spine.SpineNodeFragment"@,
                ContentItemKind::Memory => "spine.SpineMemoryFragment"@,
                ContentItemKind::SpawnEvidence => "spine.SpineSpawnEvidenceFragment"@,
                ContentItemKind::UserAnchor => "spine.user_anchor"@,
            }),
    {
        match self {
            ContentItemKind::MultiAgentModeInstructions => "multi_agent.mode_instructions",
            ContentItemKind::Node => "spine.SpineNodeFragment",
            ContentItemKind::Memory => "spine.SpineMemoryFragment",
            ContentItemKind::SpawnEvidence => "spine.SpineSpawnEvidenceFragment",
            ContentItemKind::UserAnchor => "spine.user_anchor",
        }
    }
}

pub open spec fn status_text(status: NodeStatus) -> Seq<char> {
    match status {
        NodeStatus::Live => "live"@,
        NodeStatus::Opened => "opened"@,
        NodeStatus::Closed => "closed"@,
        NodeStatus::Compacted => "compacted"@,
    }
}

pub fn status_name(status: NodeStatus) -> (r: &'static str)
    ensures
        r@ == status_text(status),
{
    match status {
        NodeStatus::Live => "live",
        NodeStatus::Opened => "opened",
        NodeStatus::Closed => "closed",
        NodeStatus::Compacted => "compacted",
    }
}

/// The text that stands for one character in an XML attribute.
pub open spec fn escaped_char(c: char) -> Seq<char> {
    if c == '&' {
        "&amp;"@
    } else if c == '<' {
        "&lt;"@
    } else if c == '>' {
        "&gt;"@
    } else if c == '"' {
        "&quot;"@
    } else {
        seq![c]
    }
}

/// A text as an XML attribute value: each character in its escaped form.
pub open spec fn escaped(s: Seq<char>) -> Seq<char>
    decreases s.len(),
{
    if s.len() == 0 {
        Seq::empty()
    } else {
        escaped(s.drop_last()) + escaped_char(s.last())
    }
}

pub fn escape_xml_attribute(input: &str) -> (r: String)
    ensures
        r@ == escaped(input@),
{
    let chars = to_chars(input);
    let mut out = String::new();
    let mut i: usize = 0;
    assert(input@.take(0) =~= Seq::<char>::empty());
    while i < chars.len()
        invariant
            i <= chars@.len(),
            chars@ == input@,
            out@ == escaped(input@.take(i as int)),
        decreases chars@.len() - i,
    {
        let c = chars[i];
        let ghost before = out@;
        if c == '&' {
            out.append("&amp;");
        } else if c == '<' {
            out.append("&lt;");
        } else if c == '>' {
            out.append("&gt;");
        } else if c == '"' {
            out.append("&quot;");
        } else {
            out.push(c);
            assert(out@ =~= before + seq![c]);
        }
        proof {
            let upto = input@.take(i + 1);
            assert(upto.drop_last() =~= input@.take(i as int));
            assert(upto.last() == c);
        }
        i = i + 1;
    }
    assert(input@.take(i as int) =~= input@);
    out
}

/// An escaped attribute holds none of the characters that would end it or open
/// a tag.
pub proof fn escaped_attribute_is_inert(s: Seq<char>)
    ensures
        forall|i: int|
            0 <= i < escaped(s).len() ==> {
                let c = #[trigger] escaped(s)[i];
                c != '<' && c != '>' && c != '"'
            },
    decreases s.len(),
{
    if s.len() > 0 {
        escaped_attribute_is_inert(s.drop_last());
        reveal_strlit("&amp;");
        reveal_strlit("&lt;");
        reveal_strlit("&gt;");
        reveal_strlit("&quot;");
        let head = escaped(s.drop_last());
        let tail = escaped_char(s.last());
        assert forall|i: int| 0 <= i < escaped(s).len() implies ({
            let c = #[trigger] escaped(s)[i];
            c != '<' && c != '>' && c != '"'
        }) by {
            if i < head.len() {
                assert(escaped(s)[i] == head[i]);
            } else {
                assert(escaped(s)[i] == tail[i - head.len()]);
            }
        }
    }
}

/// The message of a fragment that is too large.
pub open spec fn oversized_fragment_text(kind: Seq<char>, bytes: nat) -> Seq<char> {
    "Spine "@ + kind + " fragment is "@ + decimal_text(bytes) + " bytes; maximum is "@
        + decimal_text(MAX_SPINE_FRAGMENT_BYTES as nat)
}

/// A fragment as the model sees it.
pub open spec fn rendered(start: Seq<char>, body: Seq<char>, end: Seq<char>) -> Seq<char> {
    start + body + end
}

/// Whether a body is a fragment within the byte limit, or else the message
/// that refuses it.
pub open spec fn checked(kind: Seq<char>, start: Seq<char>, body: Seq<char>, end: Seq<char>)
    -> Result<Seq<char>, Seq<char>> {
    let bytes = byte_len(start) + byte_len(body) + byte_len(end);
    let counted = if bytes <= usize::MAX {
        bytes
    } else {
        usize::MAX as nat
    };
    if counted > MAX_SPINE_FRAGMENT_BYTES {
        Err(oversized_fragment_text(kind, counted))
    } else {
        Ok(body)
    }
}

/// The view of a text result.
pub open spec fn result_view(r: Result<String, String>) -> Result<Seq<char>, Seq<char>> {
    match r {
        Ok(text) => Ok(text@),
        Err(text) => Err(text@),
    }
}

pub fn checked_fragment(kind: &'static str, start: &'static str, body: String, end: &'static str)
    -> (r: Result<String, String>)
    ensures
        result_view(r) == checked(kind@, start@, body@, end@),
{
    let rendered_bytes: usize = byte_size(start).saturating_add(
        byte_size(body.as_str()),
    ).saturating_add(byte_size(end));
    if rendered_bytes > MAX_SPINE_FRAGMENT_BYTES {
        let mut message = String::from_str("Spine ");
        message.append(kind);
        message.append(" fragment is ");
        message.append(decimal(rendered_bytes as u64).as_str());
        message.append(" bytes; maximum is ");
        message.append(decimal(MAX_SPINE_FRAGMENT_BYTES as u64).as_str());
        return Err(message);
    }
    Ok(body)
}

/// A fragment that was accepted renders within the byte limit.
pub proof fn accepted_fragments_are_bounded(
    kind: Seq<char>,
    start: Seq<char>,
    body: Seq<char>,
    end: Seq<char>,
)
    requires
        checked(kind, start, body, end) is Ok,
    ensures
        byte_len(rendered(start, body, end)) <= MAX_SPINE_FRAGMENT_BYTES,
{
    lemma_encode_concat(start, body);
    lemma_encode_concat(start + body, end);
}

/// The developer instructions for multi-agent mode.
pub struct SpineMultiAgentModeInstructions {
    body: String,
}

impl SpineMultiAgentModeInstructions {
    pub closed spec fn text(&self) -> Seq<char> {
        self.body@
    }

    pub fn new(prompt: &str) -> (r: Self)
        ensures
            r.text() == prompt@,
    {
        Self { body: prompt.to_owned() }
    }

    pub fn content_kind(&self) -> (r: ContentItemKind)
        ensures
            r == ContentItemKind::MultiAgentModeInstructions,
    {
        ContentItemKind::MultiAgentModeInstructions
    }

    pub fn role(&self) -> (r: FragmentRole)
        ensures
            r == FragmentRole::Developer,
    {
        FragmentRole::Developer
    }

    pub fn body(&self) -> (r: String)
        ensures
            r@ == self.text(),
    {
        self.body.clone()
    }
}

/// The body of a node fragment. A node that is live or opened carries the node
/// prompt; what the node costs plays no part.
pub open spec fn node_body(
    node_id: Seq<char>,
    summary: Seq<char>,
    status: NodeStatus,
    prompt: Seq<char>,
) -> Seq<char> {
    let attributes = " id=\""@ + node_id + "\" summary=\""@ + escaped(summary) + "\" status=\""@
        + status_text(status) + "\">"@;
    if status is Live || status is Opened {
        if blank(prompt) {
            attributes + "\n"@
        } else {
            attributes + "\n"@ + trimmed(prompt) + "\n"@
        }
    } else {
        attributes
    }
}

/// A node of the task tree, as the model sees it.
pub struct SpineNodeFragment {
    body: String,
}

impl SpineNodeFragment {
    pub closed spec fn text(&self) -> Seq<char> {
        self.body@
    }

    pub fn new(
        node_id: &str,
        summary: &str,
        status: NodeStatus,
        _context_cost: NodeContextCost,
        prompt: &str,
    ) -> (r: Result<Self, String>)
        ensures
            match r {
                Ok(fragment) => checked(
                    "node"@,
                    "<spine_node"@,
                    node_body(node_id@, summary@, status, prompt@),
                    "</spine_node>"@,
                ) == Ok::<Seq<char>, Seq<char>>(fragment.text()),
                Err(message) => checked(
                    "node"@,
                    "<spine_node"@,
                    node_body(node_id@, summary@, status, prompt@),
                    "</spine_node>"@,
                ) == Err::<Seq<char>, Seq<char>>(message@),
            },
    {
        let mut body = String::from_str(" id=\"");
        body.append(node_id);
        body.append("\" summary=\"");
        body.append(escape_xml_attribute(summary).as_str());
        body.append("\" status=\"");
        body.append(status_name(status));
        body.append("\">");
        let active = match status {
            NodeStatus::Live | NodeStatus::Opened => true,
            _ => false,
        };
        if active {
            if is_blank(prompt) {
                body.append("\n");
            } else {
                body.append("\n");
                body.append(trim(prompt).as_str());
                body.append("\n");
            }
        }
        match checked_fragment("node", "<spine_node", body, "</spine_node>") {
            Ok(body) => Ok(Self { body }),
            Err(message) => Err(message),
        }
    }

    pub fn content_kind(&self) -> (r: ContentItemKind)
        ensures
            r == ContentItemKind::Node,
    {
        ContentItemKind::Node
    }

    pub fn role(&self) -> (r: FragmentRole)
        ensures
            r == FragmentRole::Developer,
    {
        FragmentRole::Developer
    }

    pub fn render(&self) -> (r: String)
        ensures
            r@ == rendered("<spine_node"@, self.text(), "</spine_node>"@),
    {
        render_fragment("<spine_node", self.body.as_str(), "</spine_node>")
    }
}

fn render_fragment(start: &str, body: &str, end: &str) -> (r: String)
    ensures
        r@ == rendered(start@, body@, end@),
{
    let mut out = String::from_str(start);
    out.append(body);
    out.append(end);
    out
}

/// The body of a memory fragment.
pub open spec fn memory_body(owner_node: Seq<char>, memory: Seq<char>) -> Seq<char> {
    " node_id=\""@ + owner_node + "\">\n"@ + memory + "\n"@
}

/// The memory that a closed node left.
pub struct SpineMemoryFragment {
    body: String,
}

impl SpineMemoryFragment {
    pub closed spec fn text(&self) -> Seq<char> {
        self.body@
    }

    pub fn new(owner_node: &str, memory: &str) -> (r: Result<Self, String>)
        ensures
            match r {
                Ok(fragment) => checked(
                    "memory"@,
                    "<spine_memory"@,
                    memory_body(owner_node@, memory@),
                    "</spine_memory>"@,
                ) == Ok::<Seq<char>, Seq<char>>(fragment.text()),
                Err(message) => checked(
                    "memory"@,
                    "<spine_memory"@,
                    memory_body(owner_node@, memory@),
                    "</spine_memory>"@,
                ) == Err::<Seq<char>, Seq<char>>(message@),
            },
    {
        let mut body = String::from_str(" node_id=\"");
        body.append(owner_node);
        body.append("\">\n");
        body.append(memory);
        body.append("\n");
        match checked_fragment("memory", "<spine_memory", body, "</spine_memory>") {
            Ok(body) => Ok(Self { body }),
            Err(message) => Err(message),
        }
    }

    pub fn content_kind(&self) -> (r: ContentItemKind)
        ensures
            r == ContentItemKind::Memory,
    {
        ContentItemKind::Memory
    }

    pub fn role(&self) -> (r: FragmentRole)
        ensures
            r == FragmentRole::User,
    {
        FragmentRole::User
    }

    pub fn render(&self) -> (r: String)
        ensures
            r@ == rendered("<spine_memory"@, self.text(), "</spine_memory>"@),
    {
        render_fragment("<spine_memory", self.body.as_str(), "</spine_memory>")
    }
}

/// What `serde_json::to_string_pretty` makes of the object with the given
/// members, each a name and its text, or null where there is no text: the
/// written object, or the error's own text.
pub uninterp spec fn object_json(
    members: Seq<(Seq<char>, Option<Seq<char>>)>,
) -> Result<Seq<char>, Seq<char>>;

/// What a spawned branch's evidence says.
pub open spec fn evidence_members(
    summary: Seq<char>,
    prompt: Seq<char>,
    outcome: Seq<char>,
    diagnostic: Option<Seq<char>>,
    execution_ref: Option<Seq<char>>,
) -> Seq<(Seq<char>, Option<Seq<char>>)> {
    seq![
        ("summary"@, Some(summary)),
        ("prompt"@, Some(prompt)),
        ("outcome"@, Some(outcome)),
        ("diagnostic"@, diagnostic),
        ("execution_ref"@, execution_ref),
    ]
}

pub open spec fn str_view(value: Option<&str>) -> Option<Seq<char>> {
    match value {
        Some(text) => Some(text@),
        None => None,
    }
}

pub open spec fn member_views(members: Seq<(&str, Option<&str>)>) -> Seq<
    (Seq<char>, Option<Seq<char>>),
> {
    members.map_values(|m: (&str, Option<&str>)| (m.0@, str_view(m.1)))
}

/// Calls `serde_json::to_string_pretty` on the object that holds the given
/// members. The outcome depends on the members alone; [`object_json`] names it.
#[verifier::external_body]
fn pretty_object(members: &Vec<(&str, Option<&str>)>) -> (r: Result<String, String>)
    ensures
        result_view(r) == object_json(member_views(members@)),
{
    let object = members.iter().map(|m| (m.0.to_string(), serde_json::Value::from(m.1))).collect();
    serde_json::to_string_pretty(&serde_json::Value::Object(object)).map_err(|e| e.to_string())
}

pub open spec fn outcome_text(outcome: SpawnOutcome) -> Seq<char> {
    match outcome {
        SpawnOutcome::Completed => "completed"@,
        SpawnOutcome::Errored => "errored"@,
        SpawnOutcome::Aborted => "aborted"@,
    }
}

pub fn outcome_name(outcome: SpawnOutcome) -> (r: &'static str)
    ensures
        r@ == outcome_text(outcome),
{
    match outcome {
        SpawnOutcome::Completed => "completed",
        SpawnOutcome::Errored => "errored",
        SpawnOutcome::Aborted => "aborted",
    }
}

/// The fragment that carries an already rendered piece of evidence, or the
/// message that refuses it.
pub open spec fn evidence_fragment(
    owner_node: Seq<char>,
    evidence: Result<Seq<char>, Seq<char>>,
) -> Result<Seq<char>, Seq<char>> {
    match evidence {
        Ok(evidence) => checked(
            "spawn evidence"@,
            "<spine_spawn_evidence"@,
            memory_body(owner_node, evidence),
            "</spine_spawn_evidence>"@,
        ),
        Err(error) => Err("failed to render Spine spawn evidence: "@ + error),
    }
}

/// What a spawned branch reported.
pub struct SpineSpawnEvidenceFragment {
    body: String,
}

impl SpineSpawnEvidenceFragment {
    pub closed spec fn text(&self) -> Seq<char> {
        self.body@
    }

    pub fn new(
        owner_node: &str,
        summary: &str,
        prompt: &str,
        outcome: SpawnOutcome,
        diagnostic: Option<&str>,
        execution_ref: Option<&str>,
    ) -> (r: Result<Self, String>)
        ensures
            (match r {
                Ok(fragment) => Ok::<Seq<char>, Seq<char>>(fragment.text()),
                Err(message) => Err(message@),
            }) == evidence_fragment(
                owner_node@,
                object_json(
                    evidence_members(
                        summary@,
                        prompt@,
                        outcome_text(outcome),
                        str_view(diagnostic),
                        str_view(execution_ref),
                    ),
                ),
            ),
    {
        let mut members: Vec<(&str, Option<&str>)> = Vec::new();
        members.push(("summary", Some(summary)));
        members.push(("prompt", Some(prompt)));
        members.push(("outcome", Some(outcome_name(outcome))));
        members.push(("diagnostic", diagnostic));
        members.push(("execution_ref", execution_ref));
        assert(member_views(members@) =~= evidence_members(
            summary@,
            prompt@,
            outcome_text(outcome),
            str_view(diagnostic),
            str_view(execution_ref),
        ));
        Self::from_evidence(owner_node, pretty_object(&members))
    }

    /// The fragment that carries an already rendered piece of evidence.
    pub fn from_evidence(owner_node: &str, evidence: Result<String, String>) -> (r: Result<
        Self,
        String,
    >)
        ensures
            (match r {
                Ok(fragment) => Ok::<Seq<char>, Seq<char>>(fragment.text()),
                Err(message) => Err(message@),
            }) == evidence_fragment(owner_node@, result_view(evidence)),
    {
        let evidence = match evidence {
            Ok(evidence) => evidence,
            Err(error) => {
                let mut message = String::from_str("failed to render Spine spawn evidence: ");
                message.append(error.as_str());
                return Err(message);
            },
        };
        let mut body = String::from_str(" node_id=\"");
        body.append(owner_node);
        body.append("\">\n");
        body.append(evidence.as_str());
        body.append("\n");
        match checked_fragment(
            "spawn evidence",
            "<spine_spawn_evidence",
            body,
            "</spine_spawn_evidence>",
        ) {
            Ok(body) => Ok(Self { body }),
            Err(message) => Err(message),
        }
    }

    pub fn content_kind(&self) -> (r: ContentItemKind)
        ensures
            r == ContentItemKind::SpawnEvidence,
    {
        ContentItemKind::SpawnEvidence
    }

    pub fn role(&self) -> (r: FragmentRole)
        ensures
            r == FragmentRole::User,
    {
        FragmentRole::User
    }

    pub fn render(&self) -> (r: String)
        ensures
            r@ == rendered("<spine_spawn_evidence"@, self.text(), "</spine_spawn_evidence>"@),
    {
        render_fragment(
            "<spine_spawn_evidence",
            self.body.as_str(),
            "</spine_spawn_evidence>",
        )
    }
}

/// The marker that numbers a user message.
pub open spec fn anchor_text(anchor: u64) -> Seq<char> {
    rendered("[U"@, decimal_text(anchor as nat), "]\n"@)
}

/// Whether a text is a user anchor: a number between `[U` and `]`, white space
/// around it aside.
pub open spec fn is_anchor_text(text: Seq<char>) -> bool {
    let inner = trimmed(text);
    &&& inner.len() >= 3
    &&& inner[0] == '['
    &&& inner[1] == 'U'
    &&& inner.last() == ']'
    &&& number_text(inner.subrange(2, inner.len() - 1)) is Some
}

/// The number of a user message.
#[derive(Clone, Copy, Debug, PartialEq, Eq, Structural)]
pub struct SpineUserAnchor {
    pub anchor: u64,
}

impl SpineUserAnchor {
    pub fn new(anchor: u64) -> (r: Self)
        ensures
            r.anchor == anchor,
    {
        Self { anchor }
    }

    pub fn content_kind(&self) -> (r: ContentItemKind)
        ensures
            r == ContentItemKind::UserAnchor,
    {
        ContentItemKind::UserAnchor
    }

    pub fn role(&self) -> (r: FragmentRole)
        ensures
            r == FragmentRole::User,
    {
        FragmentRole::User
    }

    pub fn render(&self) -> (r: String)
        ensures
            r@ == anchor_text(self.anchor),
    {
        render_fragment("[U", decimal(self.anchor).as_str(), "]\n")
    }

    pub fn matches_text(text: &str) -> (r: bool)
        ensures
            r == is_anchor_text(text@),
    {
        let inner = trim(text);
        let chars = to_chars(inner.as_str());
        let n = chars.len();
        if n < 3 || chars[0] != '[' || chars[1] != 'U' || chars[n - 1] != ']' {
            return false;
        }
        let number = crate::text::from_chars(&chars, 2, n - 1);
        parse_number(number.as_str()).is_some()
    }
}

/// The size of the provider value that holds one encoded item: the item between
/// `{"input":[` and `]}`.
pub open spec fn wire_bytes(encoded_item: nat) -> nat {
    encoded_item + 12
}

/// The size of the provider value that holds one item of the given encoded size.
pub fn spine_model_item_wire_bytes(encoded_item: usize) -> (r: usize)
    requires
        wire_bytes(encoded_item as nat) <= usize::MAX,
    ensures
        r == wire_bytes(encoded_item as nat),
{
    encoded_item + 12
}

/// The message that refuses a provider value of the given size.
pub open spec fn oversized_item_text(bytes: nat) -> Seq<char> {
    "Spine model provider value is "@ + decimal_text(bytes) + " bytes; maximum is "@
        + decimal_text(MAX_SPINE_MODEL_ITEM_WIRE_BYTES as nat)
}

/// Accepts a provider value of the given size, or says why not.
pub fn validate_spine_model_item(item_wire_bytes: usize) -> (r: Result<(), String>)
    ensures
        match r {
            Ok(()) => item_wire_bytes <= MAX_SPINE_MODEL_ITEM_WIRE_BYTES,
            Err(message) => item_wire_bytes > MAX_SPINE_MODEL_ITEM_WIRE_BYTES && message@
                == oversized_item_text(item_wire_bytes as nat),
        },
{
    if item_wire_bytes > MAX_SPINE_MODEL_ITEM_WIRE_BYTES {
        let mut message = String::from_str("Spine model provider value is ");
        message.append(decimal(item_wire_bytes as u64).as_str());
        message.append(" bytes; maximum is ");
        message.append(decimal(MAX_SPINE_MODEL_ITEM_WIRE_BYTES as u64).as_str());
        return Err(message);
    }
    Ok(())
}

/// A body is taken as a fragment exactly where the fragment is within eight
/// thousand bytes, and then as it is.
pub proof fn byte_limit_holds(kind: Seq<char>, start: Seq<char>, body: Seq<char>, end: Seq<char>)
    ensures
        byte_len(start + body + end) <= 8000 ==> checked(kind, start, body, end) == Ok::<
            Seq<char>,
            Seq<char>,
        >(body),
        byte_len(start + body + end) > 8000 ==> checked(kind, start, body, end) is Err,
{
    lemma_encode_concat(start, body);
    lemma_encode_concat(start + body, end);
}

/// The reading of an escaped attribute: `&amp;`, `&lt;`, `&gt;` and `&quot;`
/// stand for one character each, and every other character for itself.
pub proof fn escaping_is_character_by_character(s: Seq<char>, t: Seq<char>)
    ensures
        escaped(s + t) == escaped(s) + escaped(t),
        s == seq!['&'] ==> escaped(s) == seq!['&', 'a', 'm', 'p', ';'],
        s == seq!['<'] ==> escaped(s) == seq!['&', 'l', 't', ';'],
        s == seq!['>'] ==> escaped(s) == seq!['&', 'g', 't', ';'],
        s == seq!['"'] ==> escaped(s) == seq!['&', 'q', 'u', 'o', 't', ';'],
        s.len() == 1 && s[0] != '&' && s[0] != '<' && s[0] != '>' && s[0] != '"' ==> escaped(s)
            == s,
        s.len() == 0 ==> escaped(s) == s,
    decreases t.len(),
{
    reveal_strlit("&amp;");
    reveal_strlit("&lt;");
    reveal_strlit("&gt;");
    reveal_strlit("&quot;");
    assert("&amp;"@ =~= seq!['&', 'a', 'm', 'p', ';']);
    assert("&lt;"@ =~= seq!['&', 'l', 't', ';']);
    assert("&gt;"@ =~= seq!['&', 'g', 't', ';']);
    assert("&quot;"@ =~= seq!['&', 'q', 'u', 'o', 't', ';']);
    if s.len() == 1 {
        assert(s.drop_last() =~= Seq::empty());
        assert(escaped(Seq::empty()) =~= Seq::empty());
        assert(escaped(s) =~= escaped_char(s[0]));
        assert(s =~= seq![s[0]]);
    }
    if t.len() == 0 {
        assert(s + t =~= s);
        assert(escaped(s) + escaped(t) =~= escaped(s));
    } else {
        escaping_is_character_by_character(s, t.drop_last());
        assert((s + t).drop_last() =~= s + t.drop_last());
        assert((s + t).last() == t.last());
        assert(escaped(s + t) =~= escaped(s) + escaped(t));
    }
}

/// A user anchor's own text is recognised as one.
pub proof fn an_anchor_is_recognised(anchor: u64)
    ensures
        is_anchor_text(anchor_text(anchor)),
{
    reveal_strlit("[U");
    reveal_strlit("]\n");
    let digits = decimal_text(anchor as nat);
    let text = anchor_text(anchor);
    let inner = "[U"@ + digits + seq![']'];
    assert(text =~= inner + seq!['\n']);
    a_number_reads_back(anchor as nat);
    assert(text.skip(0) =~= text);
    assert(text.drop_last() =~= inner);
    assert(leading_white(text) == 0);
    assert(trimmed_end(inner) == inner.len());
    assert(trimmed_end(text) == inner.len());
    assert(trimmed(text) =~= inner);
    assert(inner.subrange(2, inner.len() - 1) =~= digits);
}

/// A fragment that is too large says of what kind it is, how large it is and how
/// large it may be; one that fits is its body.
pub proof fn an_oversized_fragment_says_by_how_much(
    kind: Seq<char>,
    start: Seq<char>,
    body: Seq<char>,
    end: Seq<char>,
)
    ensures
        ({
            let bytes = byte_len(start) + byte_len(body) + byte_len(end);
            &&& bytes <= 8_000 ==> checked(kind, start, body, end) == Ok::<Seq<char>, Seq<char>>(
                body,
            )
            &&& 8_000 < bytes <= usize::MAX ==> checked(kind, start, body, end) == Err::<
                Seq<char>,
                Seq<char>,
            >(
                "Spine "@ + kind + " fragment is "@ + decimal_text(bytes) + " bytes; maximum is "@
                    + decimal_text(8_000),
            )
            &&& bytes > 8_000 ==> checked(kind, start, body, end) is Err
        }),
{
}

/// Evidence that cannot be written out is reported with the reason.
pub proof fn evidence_that_cannot_be_written_says_why(owner: Seq<char>, error: Seq<char>)
    ensures
        evidence_fragment(owner, Err(error)) == Err::<Seq<char>, Seq<char>>(
            "failed to render Spine spawn evidence: "@ + error,
        ),
{
}

} // verus!

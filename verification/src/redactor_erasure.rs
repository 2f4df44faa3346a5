//! The redactor is deterministic, and no message text reaches what it keeps.

use vstd::prelude::*;

verus! {

use crate::debug_record::RecordModel;
use crate::json::{field_of, json_value, key_position, text_of, Json};
use crate::redactor::{
    line_step, outcome_step, record_step, scan_step, value_step, RedactorModel, RolloutDebugRedactorError,
};
use crate::rollout::{JsonScan, ResponseItem, RolloutItem};
use crate::shapes::text_view;

/// A source line, with its structural scan and the record that it decodes to.
pub ghost struct SourceLine {
    pub line: Seq<u8>,
    pub scan: JsonScan,
    pub decoded: Option<RolloutItem>,
}

/// Two objects with the same keys in the same order, and the same values but
/// under one key.
pub open spec fn same_fields_but(
    a: Seq<(String, Json)>,
    b: Seq<(String, Json)>,
    name: Seq<char>,
) -> bool {
    &&& a.len() == b.len()
    &&& forall|i: int|
        0 <= i < a.len() ==> (#[trigger] a[i]).0@ == b[i].0@ && (a[i].0@ != name ==> a[i].1
            == b[i].1)
}

/// Two parts of a message's content that differ at most in their texts.
pub open spec fn alike_part(a: Json, b: Json) -> bool {
    a == b || match (a, b) {
        (Json::Object(f), Json::Object(g)) => {
            &&& same_fields_but(f@, g@, "text"@)
            &&& forall|i: int|
                0 <= i < f@.len() && (#[trigger] f@[i]).0@ == "text"@ ==> f@[i].1 is Text
                    && g@[i].1 is Text
        },
        _ => false,
    }
}

/// Two contents whose parts differ at most in their texts.
pub open spec fn alike_content(a: Json, b: Json) -> bool {
    match (a, b) {
        (Json::Array(x), Json::Array(y)) => {
            &&& x@.len() == y@.len()
            &&& forall|i: int| 0 <= i < x@.len() ==> alike_part(#[trigger] x@[i], y@[i])
        },
        _ => a == b,
    }
}

/// Two messages that differ at most in the texts of their content.
pub open spec fn alike_message(a: Json, b: Json) -> bool {
    match (a, b) {
        (Json::Object(f), Json::Object(g)) => {
            &&& text_of(field_of(Some(a), "type"@)) == Some("message"@)
            &&& same_fields_but(f@, g@, "content"@)
            &&& forall|i: int|
                0 <= i < f@.len() && (#[trigger] f@[i]).0@ == "content"@ ==> alike_content(
                    f@[i].1,
                    g@[i].1,
                )
        },
        _ => false,
    }
}

/// Two records that are equal, or that hold messages which differ at most in
/// the texts of their content.
pub open spec fn alike_record(a: Json, b: Json) -> bool {
    a == b || match (a, b) {
        (Json::Object(f), Json::Object(g)) => {
            &&& text_of(field_of(Some(a), "type"@)) == Some("response_item"@)
            &&& same_fields_but(f@, g@, "payload"@)
            &&& forall|i: int|
                0 <= i < f@.len() && (#[trigger] f@[i]).0@ == "payload"@ ==> alike_message(
                    f@[i].1,
                    g@[i].1,
                )
        },
        _ => false,
    }
}

/// Two decoded records that are equal, or messages that are equal part by
/// part. The texts of a message's content are no part of a decoded record.
pub open spec fn alike_decoded(a: Option<RolloutItem>, b: Option<RolloutItem>) -> bool {
    a == b || match (a, b) {
        (
            Some(
                RolloutItem::ResponseItem(
                    ResponseItem::Message { id, role, content, phase, turn_id },
                ),
            ),
            Some(
                RolloutItem::ResponseItem(
                    ResponseItem::Message {
                        id: other_id,
                        role: other_role,
                        content: other_content,
                        phase: other_phase,
                        turn_id: other_turn_id,
                    },
                ),
            ),
        ) => {
            &&& text_view(id) == text_view(other_id)
            &&& role@ == other_role@
            &&& content@ == other_content@
            &&& phase == other_phase
            &&& text_view(turn_id) == text_view(other_turn_id)
        },
        _ => false,
    }
}

/// Two source lines that are the same but for the texts inside the content of
/// a response item's message.
pub open spec fn alike(a: SourceLine, b: SourceLine) -> bool {
    &&& a.scan == b.scan
    &&& alike_decoded(a.decoded, b.decoded)
    &&& match (json_value(a.line), json_value(b.line)) {
        (Some(x), Some(y)) => alike_record(x, y),
        (None, None) => true,
        _ => false,
    }
}

/// What comes of a sequence of source lines, in order.
pub open spec fn outcomes(s: RedactorModel, lines: Seq<SourceLine>) -> (
    RedactorModel,
    Seq<Result<RecordModel, RolloutDebugRedactorError>>,
)
    decreases lines.len(),
{
    if lines.len() == 0 {
        (s, Seq::empty())
    } else {
        let before = outcomes(s, lines.drop_last());
        let last = lines.last();
        let step = outcome_step(before.0, last.line, last.scan, last.decoded);
        (step.0, before.1.push(step.1))
    }
}

proof fn lemma_same_position(
    a: Seq<(String, Json)>,
    b: Seq<(String, Json)>,
    name: Seq<char>,
)
    requires
        a.len() == b.len(),
        forall|i: int| 0 <= i < a.len() ==> (#[trigger] a[i]).0@ == b[i].0@,
    ensures
        key_position(a, name) == key_position(b, name),
        0 <= key_position(a, name) <= a.len(),
        key_position(a, name) < a.len() ==> a[key_position(a, name)].0@ == name,
    decreases a.len(),
{
    if a.len() > 0 && a[0].0@ != name {
        let x = a.skip(1);
        let y = b.skip(1);
        assert forall|i: int| 0 <= i < x.len() implies (#[trigger] x[i]).0@ == y[i].0@ by {
            assert(x[i] == a[i + 1]);
            assert(y[i] == b[i + 1]);
        }
        lemma_same_position(x, y, name);
        let at = key_position(x, name);
        if at < x.len() {
            assert(x[at] == a[at + 1]);
        }
    }
}

proof fn lemma_record_reads(
    s: RedactorModel,
    item: RolloutItem,
    a: Option<Json>,
    b: Option<Json>,
)
    requires
        field_of(a, "output"@) == field_of(b, "output"@),
        field_of(a, "replacement_history"@) == field_of(b, "replacement_history"@),
    ensures
        record_step(s, item, a) == record_step(s, item, b),
{
}

proof fn lemma_decoded(
    s: RedactorModel,
    a: RolloutItem,
    b: RolloutItem,
    raw: Option<Json>,
)
    requires
        alike_decoded(Some(a), Some(b)),
    ensures
        record_step(s, a, raw) == record_step(s, b, raw),
{
}

#[verifier::spinoff_prover]
proof fn lemma_value(
    s: RedactorModel,
    x: Json,
    y: Json,
    a: Option<RolloutItem>,
    b: Option<RolloutItem>,
)
    requires
        alike_record(x, y),
        alike_decoded(a, b),
    ensures
        value_step(s, x, a) == value_step(s, y, b),
{
    let p = field_of(Some(x), "payload"@);
    let q = field_of(Some(y), "payload"@);
    if x != y {
        reveal_strlit("type");
        reveal_strlit("payload");
        reveal_strlit("content");
        reveal_strlit("output");
        reveal_strlit("replacement_history");
        assert("type"@.len() == 4 && "payload"@.len() == 7 && "content"@.len() == 7);
        assert("output"@.len() == 6 && "replacement_history"@.len() == 19);
        let f = x->Object_0@;
        let g = y->Object_0@;
        lemma_same_position(f, g, "type"@);
        lemma_same_position(f, g, "payload"@);
        assert(field_of(Some(x), "type"@) == field_of(Some(y), "type"@));
        assert((p is None) == (q is None));
        if p is Some {
            assert(alike_message(p->0, q->0));
            let m = p->0->Object_0@;
            let n = q->0->Object_0@;
            lemma_same_position(m, n, "type"@);
            lemma_same_position(m, n, "output"@);
            lemma_same_position(m, n, "replacement_history"@);
            assert(field_of(p, "type"@) == field_of(q, "type"@));
            assert(field_of(p, "output"@) == field_of(q, "output"@));
            assert(field_of(p, "replacement_history"@) == field_of(q, "replacement_history"@));
        }
    }
    if let Some(item) = a {
        lemma_record_reads(s, item, p, q);
        lemma_decoded(s, item, b->0, q);
    }
}

/// No message text reaches what the redactor keeps: fed with two sequences of
/// lines that are pairwise the same but for the texts inside the content of
/// response item messages, a redactor gives pairwise the same outcomes and ends
/// in the same state. With the same lines twice, this is determinism.
pub proof fn message_texts_do_not_show(
    s: RedactorModel,
    a: Seq<SourceLine>,
    b: Seq<SourceLine>,
)
    requires
        a.len() == b.len(),
        forall|i: int| 0 <= i < a.len() ==> alike(#[trigger] a[i], b[i]),
    ensures
        outcomes(s, a) == outcomes(s, b),
    decreases a.len(),
{
    if a.len() > 0 {
        let x = a.last();
        let y = b.last();
        assert(alike(a[a.len() - 1], b[b.len() - 1]));
        assert forall|i: int| 0 <= i < a.drop_last().len() implies alike(
            #[trigger] a.drop_last()[i],
            b.drop_last()[i],
        ) by {
            assert(alike(a[i], b[i]));
        }
        message_texts_do_not_show(s, a.drop_last(), b.drop_last());
        let before = outcomes(s, a.drop_last()).0;
        let begun = RedactorModel { record_json_nodes: 0, ..before };
        let scanned = scan_step(begun, x.scan).0;
        if let (Some(m), Some(n)) = (json_value(x.line), json_value(y.line)) {
            lemma_value(scanned, m, n, x.decoded, y.decoded);
        }
        assert(line_step(before, x.line, x.scan, x.decoded) == line_step(
            before,
            y.line,
            y.scan,
            y.decoded,
        ));
    }
}

} // verus!

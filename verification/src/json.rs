//! Parsed JSON values and the structural questions asked of them.

use crate::text::same_text;
use vstd::prelude::*;

verus! {

/// A parsed JSON value.
///
/// Numbers are kept only as far as they are inspected: an unsigned integer, a
/// negative integer, or any other number. An object keeps its entries in the
/// order in which the parser hands them out; no two entries share a key.
#[derive(Debug)]
pub enum Json {
    Null,
    Bool(bool),
    Unsigned(u64),
    Negative(i64),
    OtherNumber,
    Text(String),
    Array(Vec<Json>),
    Object(Vec<(String, Json)>),
}

#[verifier::external_type_specification]
#[verifier::external_body]
pub struct ExJsonValue(serde_json::Value);

/// What `serde_json::from_slice` makes of a text read as one JSON value: the
/// value, or nothing where it reports an error.
pub uninterp spec fn json_value(text: Seq<u8>) -> Option<Json>;

/// Converts a `serde_json::Value`, variant by variant, into a [`Json`].
/// Nothing is claimed of the result.
#[verifier::external_body]
fn json_from_value(value: serde_json::Value) -> (r: Json) {
    match value {
        serde_json::Value::Null => Json::Null,
        serde_json::Value::Bool(b) => Json::Bool(b),
        serde_json::Value::Number(n) => match (n.as_u64(), n.as_i64()) {
            (Some(u), _) => Json::Unsigned(u),
            (None, Some(i)) => Json::Negative(i),
            (None, None) => Json::OtherNumber,
        },
        serde_json::Value::String(s) => Json::Text(s),
        serde_json::Value::Array(a) => Json::Array(a.into_iter().map(json_from_value).collect()),
        serde_json::Value::Object(o) => Json::Object(
            o.into_iter().map(|(k, v)| (k, json_from_value(v))).collect(),
        ),
    }
}

/// Calls `serde_json::from_slice::<serde_json::Value>`. The outcome depends on
/// the bytes alone; [`json_value`] names it.
#[verifier::external_body]
pub(crate) fn parse_json(text: &[u8]) -> (r: Option<Json>)
    ensures
        r == json_value(text@),
{
    serde_json::from_slice::<serde_json::Value>(text).ok().map(json_from_value)
}

impl Json {
    /// Reads a text as one JSON value.
    pub fn parse(text: &[u8]) -> (r: Option<Json>)
        ensures
            r == json_value(text@),
    {
        parse_json(text)
    }
}

/// The position of the first entry with the given key.
pub open spec fn key_position(fields: Seq<(String, Json)>, name: Seq<char>) -> int
    decreases fields.len(),
{
    if fields.len() == 0 {
        0
    } else if fields[0].0@ == name {
        0
    } else {
        1 + key_position(fields.skip(1), name)
    }
}

/// The value under a key, where the given value is an object that has it.
pub open spec fn field_of(value: Option<Json>, name: Seq<char>) -> Option<Json> {
    match value {
        Some(Json::Object(fields)) => {
            let at = key_position(fields@, name);
            if at < fields@.len() {
                Some(fields@[at].1)
            } else {
                None
            }
        },
        _ => None,
    }
}

/// The text of a value, where it is a text.
pub open spec fn text_of(value: Option<Json>) -> Option<Seq<char>> {
    match value {
        Some(Json::Text(text)) => Some(text@),
        _ => None,
    }
}

/// Whether an object has an entry whose key is none of the allowed ones.
pub open spec fn unknown_fields(value: Option<Json>, allowed: Seq<Seq<char>>) -> bool {
    match value {
        Some(Json::Object(fields)) => foreign_key(fields@, allowed),
        _ => false,
    }
}

/// Whether some entry's key is none of the allowed ones.
pub open spec fn foreign_key(fields: Seq<(String, Json)>, allowed: Seq<Seq<char>>) -> bool {
    exists|i: int| 0 <= i < fields.len() && !allowed.contains((#[trigger] fields[i]).0@)
}

/// The value behind an optional reference.
pub open spec fn deref_option<T>(value: Option<&T>) -> Option<T> {
    match value {
        Some(v) => Some(*v),
        None => None,
    }
}

proof fn lemma_key_position(fields: Seq<(String, Json)>, name: Seq<char>, at: int)
    requires
        0 <= at <= fields.len(),
        forall|j: int| 0 <= j < at ==> (#[trigger] fields[j]).0@ != name,
        at < fields.len() ==> fields[at].0@ == name,
    ensures
        key_position(fields, name) == at,
    decreases fields.len(),
{
    if at > 0 {
        assert(fields[0].0@ != name);
        assert forall|j: int| 0 <= j < at - 1 implies (#[trigger] fields.skip(1)[j]).0@ != name by {
            assert(fields.skip(1)[j] == fields[j + 1]);
        }
        lemma_key_position(fields.skip(1), name, at - 1);
    }
}

/// The value under `name`, where `value` is an object that has it.
pub fn field<'a>(value: Option<&'a Json>, name: &str) -> (r: Option<&'a Json>)
    ensures
        deref_option(r) == field_of(deref_option(value), name@),
{
    match value {
        Some(Json::Object(fields)) => {
            let mut i: usize = 0;
            while i < fields.len()
                invariant
                    i <= fields@.len(),
                    value == Some(&Json::Object(*fields)),
                    forall|j: int| 0 <= j < i ==> (#[trigger] fields@[j]).0@ != name@,
                decreases fields@.len() - i,
            {
                if same_text(fields[i].0.as_str(), name) {
                    proof {
                        lemma_key_position(fields@, name@, i as int);
                    }
                    return Some(&fields[i].1);
                }
                i = i + 1;
            }
            proof {
                lemma_key_position(fields@, name@, i as int);
            }
            None
        },
        _ => None,
    }
}

/// The text of a value, where it is a text.
pub fn text_value<'a>(value: Option<&'a Json>) -> (r: Option<&'a str>)
    ensures
        text_of(deref_option(value)) == (match r {
            Some(t) => Some(t@),
            None => None,
        }),
{
    match value {
        Some(Json::Text(text)) => Some(text.as_str()),
        _ => None,
    }
}

/// The views of a list of names.
pub open spec fn name_views(names: Seq<&str>) -> Seq<Seq<char>> {
    names.map_values(|n: &str| n@)
}

fn contains_name(names: &[&str], name: &str) -> (r: bool)
    ensures
        r == name_views(names@).contains(name@),
{
    let mut i: usize = 0;
    while i < names.len()
        invariant
            i <= names@.len(),
            forall|j: int| 0 <= j < i ==> (#[trigger] names@[j])@ != name@,
        decreases names@.len() - i,
    {
        if same_text(names[i], name) {
            assert(name_views(names@)[i as int] == name@);
            return true;
        }
        i = i + 1;
    }
    assert forall|j: int| 0 <= j < name_views(names@).len() implies name_views(names@)[j]
        != name@ by {
        assert(name_views(names@)[j] == names@[j]@);
    }
    false
}

/// Whether an object has an entry whose key is none of `allowed`.
pub fn has_unknown_fields(value: Option<&Json>, allowed: &[&str]) -> (r: bool)
    ensures
        r == unknown_fields(deref_option(value), name_views(allowed@)),
{
    match value {
        Some(Json::Object(fields)) => {
            let mut i: usize = 0;
            while i < fields.len()
                invariant
                    i <= fields@.len(),
                    value == Some(&Json::Object(*fields)),
                    forall|j: int|
                        0 <= j < i ==> name_views(allowed@).contains((#[trigger] fields@[j]).0@),
                decreases fields@.len() - i,
            {
                if !contains_name(allowed, fields[i].0.as_str()) {
                    assert(foreign_key(fields@, name_views(allowed@))) by {
                        assert(!name_views(allowed@).contains(fields@[i as int].0@));
                    }
                    return true;
                }
                i = i + 1;
            }
            false
        },
        _ => false,
    }
}

/// An entry is found under its key where it is the first one with it, and
/// nothing is found under a key that no entry has, or in what is no object.
pub proof fn entries_are_found_by_key(fields: Vec<(String, Json)>, i: int, name: Seq<char>)
    ensures
        0 <= i < fields@.len() && fields@[i].0@ == name && (forall|j: int|
            0 <= j < i ==> (#[trigger] fields@[j]).0@ != name) ==> field_of(
            Some(Json::Object(fields)),
            name,
        ) == Some(fields@[i].1),
        (forall|j: int| 0 <= j < fields@.len() ==> (#[trigger] fields@[j]).0@ != name) ==> field_of(
            Some(Json::Object(fields)),
            name,
        ) is None,
        forall|value: Option<Json>|
            !(value matches Some(Json::Object(_))) ==> #[trigger] field_of(value, name) is None,
{
    lemma_first_key(fields@, i, name);
}

proof fn lemma_first_key(fields: Seq<(String, Json)>, i: int, name: Seq<char>)
    ensures
        0 <= i < fields.len() && fields[i].0@ == name && (forall|j: int|
            0 <= j < i ==> (#[trigger] fields[j]).0@ != name) ==> key_position(fields, name) == i,
        (forall|j: int| 0 <= j < fields.len() ==> (#[trigger] fields[j]).0@ != name)
            ==> key_position(fields, name) == fields.len(),
    decreases fields.len(),
{
    if fields.len() > 0 && fields[0].0@ != name {
        let rest = fields.skip(1);
        lemma_first_key(rest, i - 1, name);
        assert forall|j: int| 0 <= j < rest.len() implies rest[j] == #[trigger] fields[j + 1] by {}
        if 0 <= i < fields.len() && fields[i].0@ == name && (forall|j: int|
            0 <= j < i ==> (#[trigger] fields[j]).0@ != name) {
            assert(rest[i - 1] == fields[i]);
            assert forall|j: int| 0 <= j < i - 1 implies (#[trigger] rest[j]).0@ != name by {
                assert(rest[j] == fields[j + 1]);
            }
        }
        if forall|j: int| 0 <= j < fields.len() ==> (#[trigger] fields[j]).0@ != name {
            assert forall|j: int| 0 <= j < rest.len() implies (#[trigger] rest[j]).0@ != name by {
                assert(rest[j] == fields[j + 1]);
            }
        }
    }
}

/// An entry under a key that is not allowed makes an object unknown, and without
/// one it is not.
pub proof fn foreign_entries_are_noticed(
    fields: Vec<(String, Json)>,
    allowed: Seq<Seq<char>>,
    i: int,
)
    ensures
        0 <= i < fields@.len() && !allowed.contains(fields@[i].0@) ==> unknown_fields(
            Some(Json::Object(fields)),
            allowed,
        ),
        (forall|j: int| 0 <= j < fields@.len() ==> allowed.contains((#[trigger] fields@[j]).0@))
            ==> !unknown_fields(Some(Json::Object(fields)), allowed),
{
}

} // verus!

//! Parsed JSON/YAML documents, as plain values the analyses read.
use vstd::prelude::*;

use crate::text::str_eq;

verus! {

/// A parsed JSON (or YAML) document.
#[derive(Debug)]
pub enum JsonValue {
    Null,
    Bool(bool),
    /// A number, in the text form the parser prints it in.
    Number(String),
    Str(String),
    Array(Vec<JsonValue>),
    /// An object's members, ordered by key (the order of `serde_json`'s map).
    Object(Vec<(String, JsonValue)>),
}

#[verifier::external_type_specification]
#[verifier::external_body]
pub struct ExSerdeJsonValue(serde_json::Value);

/// The document `serde_json` parses from `text`, or the text of the error it
/// reports.
pub uninterp spec fn json_document(text: Seq<char>) -> Result<JsonValue, Seq<char>>;

/// The document `serde_yml` parses from `text` into a JSON value, or the
/// text of the error it reports.
pub uninterp spec fn yml_document(text: Seq<char>) -> Result<JsonValue, Seq<char>>;

/// The document `serde_yaml` parses from `text` into a JSON value, or the
/// text of the error it reports.
pub uninterp spec fn yaml_document(text: Seq<char>) -> Result<JsonValue, Seq<char>>;

/// `r` is the parse outcome `d`: the same document, or an error with the
/// same text.
pub open spec fn parsed_as(r: Result<JsonValue, String>, d: Result<JsonValue, Seq<char>>) -> bool {
    match d {
        Ok(v) => r == Ok::<JsonValue, String>(v),
        Err(m) => r matches Err(e) && e@ == m,
    }
}

/// Moves a `serde_json::Value` into a `JsonValue`, variant for variant.
#[verifier::external_body]
fn from_serde(v: serde_json::Value) -> JsonValue {
    match v {
        serde_json::Value::Null => JsonValue::Null,
        serde_json::Value::Bool(b) => JsonValue::Bool(b),
        serde_json::Value::Number(n) => JsonValue::Number(n.to_string()),
        serde_json::Value::String(s) => JsonValue::Str(s),
        serde_json::Value::Array(a) => JsonValue::Array(a.into_iter().map(from_serde).collect()),
        serde_json::Value::Object(o) => JsonValue::Object(
            o.into_iter().map(|(k, x)| (k, from_serde(x))).collect(),
        ),
    }
}

/// Parses JSON text with `serde_json::from_str::<serde_json::Value>`; the
/// result is the document `json_document` names for the text, or the
/// error's text.
#[verifier::external_body]
pub(crate) fn parse_json(text: &str) -> (r: Result<JsonValue, String>)
    ensures
        parsed_as(r, json_document(text@)),
{
    match serde_json::from_str::<serde_json::Value>(text) {
        Ok(v) => Ok(from_serde(v)),
        Err(e) => Err(e.to_string()),
    }
}

/// Parses YAML text with `serde_yml::from_str::<serde_json::Value>`; the
/// result is the document `yml_document` names for the text, or the
/// error's text.
#[verifier::external_body]
pub(crate) fn parse_yml(text: &str) -> (r: Result<JsonValue, String>)
    ensures
        parsed_as(r, yml_document(text@)),
{
    match serde_yml::from_str::<serde_json::Value>(text) {
        Ok(v) => Ok(from_serde(v)),
        Err(e) => Err(e.to_string()),
    }
}

/// Parses YAML text with `serde_yaml::from_str::<serde_json::Value>`; the
/// result is the document `yaml_document` names for the text, or the
/// error's text.
#[verifier::external_body]
pub(crate) fn parse_yaml(text: &str) -> (r: Result<JsonValue, String>)
    ensures
        parsed_as(r, yaml_document(text@)),
{
    match serde_yaml::from_str::<serde_json::Value>(text) {
        Ok(v) => Ok(from_serde(v)),
        Err(e) => Err(e.to_string()),
    }
}

/// The first member of `members` named `key`.
pub open spec fn member(members: Seq<(String, JsonValue)>, key: Seq<char>) -> Option<JsonValue>
    decreases members.len(),
{
    if members.len() == 0 {
        None
    } else if members[0].0@ == key {
        Some(members[0].1)
    } else {
        member(members.drop_first(), key)
    }
}

/// The position of the first member of `members` named `key`.
pub open spec fn member_index(members: Seq<(String, JsonValue)>, key: Seq<char>) -> Option<int>
    decreases members.len(),
{
    if members.len() == 0 {
        None
    } else if members[0].0@ == key {
        Some(0)
    } else {
        match member_index(members.drop_first(), key) {
            Some(i) => Some(i + 1),
            None => None,
        }
    }
}

/// `member` finds the member at `member_index`.
pub proof fn lemma_member_index(members: Seq<(String, JsonValue)>, key: Seq<char>)
    ensures
        match member_index(members, key) {
            Some(i) => 0 <= i < members.len() && member(members, key) == Some(members[i].1),
            None => member(members, key) is None,
        },
    decreases members.len(),
{
    if members.len() > 0 && members[0].0@ != key {
        lemma_member_index(members.drop_first(), key);
    }
}

/// The value of field `key` of an object (`Value::get`); none for other values.
pub open spec fn field(v: JsonValue, key: Seq<char>) -> Option<JsonValue> {
    match v {
        JsonValue::Object(members) => member(members@, key),
        _ => None,
    }
}

/// A string value's text.
pub open spec fn str_of(v: JsonValue) -> Option<Seq<char>> {
    match v {
        JsonValue::Str(s) => Some(s@),
        _ => None,
    }
}

/// The member of `members` named `key`, searching from position `from`.
fn member_from<'a>(members: &'a Vec<(String, JsonValue)>, key: &str, from: usize) -> (r: Option<
    &'a JsonValue,
>)
    requires
        from <= members@.len(),
    ensures
        match r {
            Some(x) => member(members@.skip(from as int), key@) == Some(*x),
            None => member(members@.skip(from as int), key@) is None,
        },
    decreases members@.len() - from,
{
    if from == members.len() {
        return None;
    }
    assert(members@.skip(from as int)[0] == members@[from as int]);
    assert(members@.skip(from as int).drop_first() =~= members@.skip(from + 1));
    if str_eq(members[from].0.as_str(), key) {
        Some(&members[from].1)
    } else {
        member_from(members, key, from + 1)
    }
}

/// The first member named `key` among an object's members.
pub fn get_field_of<'a>(members: &'a Vec<(String, JsonValue)>, key: &str) -> (r: Option<&'a JsonValue>)
    ensures
        match r {
            Some(x) => member(members@, key@) == Some(*x),
            None => member(members@, key@) is None,
        },
{
    assert(members@.skip(0) =~= members@);
    member_from(members, key, 0)
}

/// The position of the first member named `key`.
pub fn index_of_field(members: &Vec<(String, JsonValue)>, key: &str) -> (r: Option<usize>)
    ensures
        match member_index(members@, key@) {
            Some(i) => r == Some(i as usize) && 0 <= i < members@.len(),
            None => r is None,
        },
{
    proof {
        lemma_member_index(members@, key@);
    }
    assert(members@.skip(0) =~= members@);
    let mut i: usize = 0;
    while i < members.len()
        invariant
            i <= members@.len(),
            member_index(members@, key@) == match member_index(members@.skip(i as int), key@) {
                Some(k) => Some(k + i),
                None => None,
            },
        decreases members@.len() - i,
    {
        assert(members@.skip(i as int)[0] == members@[i as int]);
        assert(members@.skip(i as int).drop_first() =~= members@.skip(i + 1));
        if str_eq(members[i].0.as_str(), key) {
            return Some(i);
        }
        i = i + 1;
    }
    None
}

/// The value of field `key` of an object.
pub fn get_field<'a>(v: &'a JsonValue, key: &str) -> (r: Option<&'a JsonValue>)
    ensures
        match r {
            Some(x) => field(*v, key@) == Some(*x),
            None => field(*v, key@) is None,
        },
{
    match v {
        JsonValue::Object(members) => {
            assert(members@.skip(0) =~= members@);
            member_from(members, key, 0)
        },
        _ => None,
    }
}

/// The members of an object value, none for other values.
pub open spec fn members_of(v: Option<JsonValue>) -> Seq<(String, JsonValue)> {
    match v {
        Some(JsonValue::Object(ms)) => ms@,
        _ => Seq::empty(),
    }
}

/// An object's members (`Value::as_object`).
pub fn as_object(v: &JsonValue) -> (r: Option<&Vec<(String, JsonValue)>>)
    ensures
        match *v {
            JsonValue::Object(ms) => r is Some && r->0@ == ms@,
            _ => r is None,
        },
{
    match v {
        JsonValue::Object(ms) => Some(ms),
        _ => None,
    }
}

/// An array's elements (`Value::as_array`).
pub fn as_array(v: &JsonValue) -> (r: Option<&Vec<JsonValue>>)
    ensures
        match *v {
            JsonValue::Array(a) => r is Some && r->0@ == a@,
            _ => r is None,
        },
{
    match v {
        JsonValue::Array(a) => Some(a),
        _ => None,
    }
}

/// A string value's text.
pub fn as_str(v: &JsonValue) -> (r: Option<&str>)
    ensures
        match r {
            Some(s) => str_of(*v) == Some(s@),
            None => str_of(*v) is None,
        },
{
    match v {
        JsonValue::Str(s) => Some(s.as_str()),
        _ => None,
    }
}

} // verus!

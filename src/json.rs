//! A JSON tree of the library's own, filled by serde_json's parser.
use vstd::prelude::*;

use crate::text::{str_eq, trim, trim_str};

verus! {

/// A JSON value. Objects hold their entries in the order serde_json's map yields them (by
/// default sorted by key, each key once).
#[derive(Debug)]
pub enum Json {
    Null,
    Bool(bool),
    /// A number, as its decimal text.
    Number(String),
    Str(String),
    Array(Vec<Json>),
    Object(Vec<(String, Json)>),
}

#[verifier::external_type_specification]
#[verifier::external_body]
pub struct ExJsonValue(serde_json::Value);

/// What serde_json makes of a text: the tree, or `None` where the text is no JSON.
pub uninterp spec fn parsed_json(text: Seq<char>) -> Option<Json>;

/// Relies on `serde_json::from_str::<serde_json::Value>`: parses `text`, and the value is
/// carried over into the library's tree one node for one.
#[verifier::external_body]
pub fn parse_json(text: &str) -> (r: Option<Json>)
    ensures
        r == parsed_json(text@),
{
    serde_json::from_str::<serde_json::Value>(text).ok().map(|v| json_from_value(&v))
}

/// Relies on the variants of `serde_json::Value`: each node becomes the node of the same
/// kind, numbers as their `Display` text.
#[verifier::external_body]
fn json_from_value(v: &serde_json::Value) -> Json {
    match v {
        serde_json::Value::Null => Json::Null,
        serde_json::Value::Bool(b) => Json::Bool(*b),
        serde_json::Value::Number(n) => Json::Number(n.to_string()),
        serde_json::Value::String(s) => Json::Str(s.clone()),
        serde_json::Value::Array(a) => Json::Array(a.iter().map(json_from_value).collect()),
        serde_json::Value::Object(o) => Json::Object(
            o.iter().map(|(k, x)| (k.clone(), json_from_value(x))).collect(),
        ),
    }
}

pub open spec fn deref_opt(v: Option<&Json>) -> Option<Json> {
    match v {
        Some(x) => Some(*x),
        None => None,
    }
}

/// The value of the first entry named `key`.
pub open spec fn lookup(entries: Seq<(String, Json)>, key: Seq<char>) -> Option<Json>
    decreases entries.len(),
{
    if entries.len() == 0 {
        None
    } else if entries[0].0@ == key {
        Some(entries[0].1)
    } else {
        lookup(entries.drop_first(), key)
    }
}

/// The field `key` of an object; `None` for anything else.
pub open spec fn field(v: Json, key: Seq<char>) -> Option<Json> {
    match v {
        Json::Object(entries) => lookup(entries@, key),
        _ => None,
    }
}

/// The field `a`, or failing that the field `b`.
pub open spec fn field_or(v: Json, a: Seq<char>, b: Seq<char>) -> Option<Json> {
    match field(v, a) {
        Some(x) => Some(x),
        None => field(v, b),
    }
}

/// A string value, trimmed, where something is left.
pub open spec fn text_of(v: Option<Json>) -> Option<Seq<char>> {
    match v {
        Some(Json::Str(s)) => if trim(s@).len() > 0 {
            Some(trim(s@))
        } else {
            None
        },
        _ => None,
    }
}

impl Json {
    pub fn get(&self, key: &str) -> (r: Option<&Json>)
        ensures
            deref_opt(r) == field(*self, key@),
    {
        match self {
            Json::Object(entries) => {
                let mut i: usize = 0;
                assert(entries@.subrange(0, entries@.len() as int) =~= entries@);
                while i < entries.len()
                    invariant
                        i <= entries@.len(),
                        field(*self, key@) == lookup(entries@, key@),
                        lookup(entries@, key@) == lookup(entries@.subrange(i as int, entries@.len() as int), key@),
                    decreases entries.len() - i,
                {
                    let ghost rest = entries@.subrange(i as int, entries@.len() as int);
                    assert(rest.drop_first() =~= entries@.subrange(i + 1, entries@.len() as int));
                    assert(rest[0] == entries@[i as int]);
                    if str_eq(entries[i].0.as_str(), key) {
                        return Some(&entries[i].1);
                    }
                    i = i + 1;
                }
                None
            },
            _ => None,
        }
    }

    pub fn get_either(&self, a: &str, b: &str) -> (r: Option<&Json>)
        ensures
            deref_opt(r) == field_or(*self, a@, b@),
    {
        match self.get(a) {
            Some(x) => Some(x),
            None => self.get(b),
        }
    }
}

/// A string value, trimmed, where something is left.
pub fn read_text(value: Option<&Json>) -> (r: Option<String>)
    ensures
        r.is_some() == text_of(deref_opt(value)).is_some(),
        r.is_some() ==> r.unwrap()@ == text_of(deref_opt(value)).unwrap(),
{
    match value {
        Some(Json::Str(s)) => {
            let t = trim_str(s.as_str());
            if !t.as_str().is_empty() {
                proof {
                    assert(t@.len() > 0);
                }
                Some(t)
            } else {
                None
            }
        },
        _ => None,
    }
}

} // verus!

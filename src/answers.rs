//! The answers a client gives to a user-input request, normalised per question.
use vstd::prelude::*;

use crate::json::{lookup, Json};
use crate::order::views;
use crate::text::{trim, trim_str};
use crate::text_map::TextMap;

verus! {

/// The compact JSON text of a value.
pub uninterp spec fn json_text_of(v: Json) -> Seq<char>;

/// Relies on `serde_json::Value`'s `Display` (compact JSON): the value, carried over into a
/// `serde_json::Value` one node for one, written as JSON text.
#[verifier::external_body]
fn json_text(v: &Json) -> (r: String)
    ensures
        r@ == json_text_of(*v),
{
    json_to_value(v).to_string()
}

/// Relies on the constructors of `serde_json::Value`: each node becomes the node of the same
/// kind; a number's text is parsed back by serde_json.
#[verifier::external_body]
fn json_to_value(v: &Json) -> serde_json::Value {
    match v {
        Json::Null => serde_json::Value::Null,
        Json::Bool(b) => serde_json::Value::Bool(*b),
        Json::Number(n) => serde_json::from_str(n).unwrap_or(serde_json::Value::Null),
        Json::Str(s) => serde_json::Value::String(s.clone()),
        Json::Array(a) => serde_json::Value::Array(a.iter().map(json_to_value).collect()),
        Json::Object(o) => serde_json::Value::Object(o.iter().map(|(k, x)| (k.clone(), json_to_value(x))).collect()),
    }
}

/// The answer values inside an answer: an object's `answers`, else its `value`, else nothing.
pub open spec fn raw_answer(v: Json) -> Json {
    match v {
        Json::Object(es) => match lookup(es@, "answers"@) {
            Some(x) => x,
            None => match lookup(es@, "value"@) {
                Some(x) => x,
                None => Json::Null,
            },
        },
        _ => v,
    }
}

/// One entry of an answer list: a string trimmed, anything else as JSON text.
pub open spec fn entry_text(v: Json) -> Seq<char> {
    match v {
        Json::Str(s) => trim(s@),
        _ => json_text_of(v),
    }
}

pub open spec fn entry_texts(items: Seq<Json>) -> Seq<Seq<char>>
    decreases items.len(),
{
    if items.len() == 0 {
        Seq::empty()
    } else {
        let rest = entry_texts(items.drop_last());
        let t = entry_text(items.last());
        if t.len() > 0 { rest.push(t) } else { rest }
    }
}

/// The answers of one question.
pub open spec fn answer_list(v: Json) -> Seq<Seq<char>> {
    match raw_answer(v) {
        Json::Array(items) => entry_texts(items@),
        Json::Str(s) => if trim(s@).len() > 0 { seq![trim(s@)] } else { Seq::empty() },
        Json::Null => Seq::empty(),
        other => seq![json_text_of(other)],
    }
}

fn entry_text_of(v: &Json) -> (r: String)
    ensures
        r@ == entry_text(*v),
{
    match v {
        Json::Str(s) => trim_str(s.as_str()),
        _ => json_text(v),
    }
}

pub fn as_answer_list(value: &Json) -> (r: Vec<String>)
    ensures
        views(r@) == answer_list(*value),
{
    let raw: &Json = match value {
        Json::Object(_) => match value.get("answers") {
            Some(x) => x,
            None => match value.get("value") {
                Some(x) => x,
                None => &Json::Null,
            },
        },
        _ => value,
    };
    assert(*raw == raw_answer(*value));
    let mut r: Vec<String> = Vec::new();
    match raw {
        Json::Array(items) => {
            let mut i: usize = 0;
            assert(views(r@) =~= entry_texts(items@.subrange(0, 0)));
            while i < items.len()
                invariant
                    i <= items@.len(),
                    views(r@) == entry_texts(items@.subrange(0, i as int)),
                decreases items.len() - i,
            {
                proof {
                    assert(items@.subrange(0, i + 1).drop_last() =~= items@.subrange(0, i as int));
                }
                let t = entry_text_of(&items[i]);
                if !t.as_str().is_empty() {
                    r.push(t);
                }
                i = i + 1;
                assert(views(r@) =~= entry_texts(items@.subrange(0, i as int)));
            }
            assert(items@.subrange(0, i as int) =~= items@);
        },
        Json::Str(s) => {
            let t = trim_str(s.as_str());
            if !t.as_str().is_empty() {
                r.push(t);
            }
            assert(views(r@) =~= answer_list(*value));
        },
        Json::Null => {
            assert(views(r@) =~= answer_list(*value));
        },
        _ => {
            r.push(json_text(raw));
            assert(views(r@) =~= answer_list(*value));
        },
    }
    r
}

/// The answers by question id: ids trimmed, blank ids skipped, a later answer to the same
/// id replacing an earlier one.
pub open spec fn answers_map(s: Seq<(String, Json)>) -> Map<Seq<char>, Seq<Seq<char>>>
    decreases s.len(),
{
    if s.len() == 0 {
        Map::empty()
    } else {
        let m = answers_map(s.drop_last());
        let q = trim(s.last().0@);
        if q.len() > 0 { m.insert(q, answer_list(s.last().1)) } else { m }
    }
}

pub fn normalize_user_input_answers(answers: &Vec<(String, Json)>) -> (r: TextMap<Vec<String>>)
    ensures
        r.wf(),
        r@.dom() == answers_map(answers@).dom(),
        forall|q: Seq<char>| #[trigger] r@.contains_key(q) ==> views(r@[q]@) == answers_map(answers@)[q],
{
    let mut normalized: TextMap<Vec<String>> = TextMap::new();
    let mut i: usize = 0;
    assert(normalized@.dom() =~= answers_map(answers@.subrange(0, 0)).dom());
    while i < answers.len()
        invariant
            i <= answers@.len(),
            normalized.wf(),
            normalized@.dom() == answers_map(answers@.subrange(0, i as int)).dom(),
            forall|q: Seq<char>| #[trigger] normalized@.contains_key(q) ==> views(normalized@[q]@) == answers_map(answers@.subrange(0, i as int))[q],
        decreases answers.len() - i,
    {
        proof {
            assert(answers@.subrange(0, i + 1).drop_last() =~= answers@.subrange(0, i as int));
        }
        let q = trim_str(answers[i].0.as_str());
        if !q.as_str().is_empty() {
            let list = as_answer_list(&answers[i].1);
            normalized.insert(q, list);
        }
        i = i + 1;
        proof {
            assert(normalized@.dom() =~= answers_map(answers@.subrange(0, i as int)).dom());
        }
    }
    assert(answers@.subrange(0, i as int) =~= answers@);
    normalized
}

} // verus!

//! JSON texts the DeepSeek API answers with, read as plain values: the
//! model list, the delta of a streamed payload, and the message of an error
//! body. Parsing the text is serde_json's; what is read out of the value is
//! stated here.

use vstd::prelude::*;

use crate::deepseek::{delta_cell, delta_chunk};
use crate::protocol::StreamChunk;
use crate::text::str_equals;

verus! {

#[verifier::external_type_specification]
#[verifier::external_body]
pub struct ExSerdeJsonValue(serde_json::Value);

/// A JSON value. Numbers are kept as their text; an object keeps its
/// members as serde_json hands them over.
#[derive(Debug)]
pub enum JsonValue {
    Null,
    Bool(bool),
    Number(String),
    Str(String),
    Array(Vec<JsonValue>),
    Object(Vec<(String, JsonValue)>),
}

/// The value serde_json parses a text into, or `None` when the text is not
/// JSON.
pub uninterp spec fn json_parsed(text: Seq<char>) -> Option<JsonValue>;

/// `serde_json::from_str::<serde_json::Value>`, converted into a
/// `JsonValue`: the parsed value, or `None` when the text is not JSON.
/// Which value a text parses to is serde_json's and is only named here.
#[verifier::external_body]
fn parse_json(text: &str) -> (r: Option<JsonValue>)
    ensures
        r == json_parsed(text@),
{
    serde_json::from_str::<serde_json::Value>(text).ok().map(|v| json_value_of(v))
}

/// Converts a `serde_json::Value` into a `JsonValue`, one for one: numbers
/// by their text, the members of an object in serde_json's order. It only
/// serves `parse_json`, whose contract states the result.
#[verifier::external_body]
fn json_value_of(v: serde_json::Value) -> JsonValue {
    match v {
        serde_json::Value::Null => JsonValue::Null,
        serde_json::Value::Bool(b) => JsonValue::Bool(b),
        serde_json::Value::Number(n) => JsonValue::Number(n.to_string()),
        serde_json::Value::String(s) => JsonValue::Str(s),
        serde_json::Value::Array(a) => JsonValue::Array(a.into_iter().map(|x| json_value_of(x)).collect()),
        serde_json::Value::Object(m) => JsonValue::Object(m.into_iter().map(|(k, x)| (k, json_value_of(x))).collect()),
    }
}

/// The value of the first member named `key`.
pub open spec fn entry_value(entries: Seq<(String, JsonValue)>, key: Seq<char>) -> Option<JsonValue>
    decreases entries.len(),
{
    if entries.len() == 0 {
        None
    } else if entries[0].0@ == key {
        Some(entries[0].1)
    } else {
        entry_value(entries.drop_first(), key)
    }
}

/// The member `key` of a value (`Value::get` with a key): only an object
/// has members.
pub open spec fn member(v: Option<JsonValue>, key: Seq<char>) -> Option<JsonValue> {
    match v {
        Some(JsonValue::Object(e)) => entry_value(e@, key),
        _ => None,
    }
}

/// The `0` step of a JSON pointer: the first element of an array, or the
/// member `"0"` of an object.
pub open spec fn first_step(v: Option<JsonValue>) -> Option<JsonValue> {
    match v {
        Some(JsonValue::Array(a)) => if a@.len() > 0 {
            Some(a@[0])
        } else {
            None
        },
        Some(JsonValue::Object(e)) => entry_value(e@, "0"@),
        _ => None,
    }
}

/// The text of a string value.
pub open spec fn text_value(v: Option<JsonValue>) -> Option<Seq<char>> {
    match v {
        Some(JsonValue::Str(s)) => Some(s@),
        _ => None,
    }
}

/// The `id` texts of a list of model entries, in order; an entry without a
/// string `id` is skipped.
pub open spec fn ids_in(items: Seq<JsonValue>) -> Seq<Seq<char>>
    decreases items.len(),
{
    if items.len() == 0 {
        Seq::empty()
    } else {
        ids_in(items.drop_last()) + match text_value(member(Some(items.last()), "id"@)) {
            Some(s) => seq![s],
            None => Seq::empty(),
        }
    }
}

/// The model ids of a parsed model list: the `id`s of the `data` array, or
/// none without one.
pub open spec fn ids_of(v: JsonValue) -> Seq<Seq<char>> {
    match member(Some(v), "data"@) {
        Some(JsonValue::Array(a)) => ids_in(a@),
        _ => Seq::empty(),
    }
}

/// The `delta` of a streamed payload: `/choices/0/delta`.
pub open spec fn payload_delta(v: Option<JsonValue>) -> Option<JsonValue> {
    member(first_step(member(v, "choices"@)), "delta"@)
}

/// The message of an error body: its `/error/message` text when the body
/// is JSON holding one, the raw body otherwise.
pub open spec fn error_text_of(body: Seq<char>, parsed: Option<JsonValue>) -> Seq<char> {
    match text_value(member(member(parsed, "error"@), "message"@)) {
        Some(m) => m,
        None => body,
    }
}

/// The member `key` of a value.
fn member_ref<'a>(v: Option<&'a JsonValue>, key: &str) -> (r: Option<&'a JsonValue>)
    ensures
        match member(
            match v {
                Some(x) => Some(*x),
                None => None,
            },
            key@,
        ) {
            Some(x) => r matches Some(y) && *y == x,
            None => r is None,
        },
{
    match v {
        Some(JsonValue::Object(entries)) => {
            let mut i: usize = 0;
            assert(entries@.subrange(0, entries@.len() as int) =~= entries@);
            while i < entries.len()
                invariant
                    i <= entries@.len(),
                    member(
                        match v {
                            Some(x) => Some(*x),
                            None => None,
                        },
                        key@,
                    ) == entry_value(entries@, key@),
                    entry_value(entries@, key@) == entry_value(
                        entries@.subrange(i as int, entries@.len() as int),
                        key@,
                    ),
                decreases entries.len() - i,
            {
                proof {
                    let t = entries@.subrange(i as int, entries@.len() as int);
                    assert(t[0] == entries@[i as int]);
                    assert(t.drop_first() =~= entries@.subrange(i + 1, entries@.len() as int));
                }
                if str_equals(entries[i].0.as_str(), key) {
                    assert(entry_value(entries@.subrange(i as int, entries@.len() as int), key@) == Some(
                        entries@[i as int].1,
                    ));
                    return Some(&entries[i].1);
                }
                i += 1;
            }
            proof {
                assert(entries@.subrange(entries@.len() as int, entries@.len() as int) =~= Seq::<(String, JsonValue)>::empty());
            }
            None
        },
        _ => None,
    }
}

/// The `0` step of a JSON pointer.
fn first_ref<'a>(v: Option<&'a JsonValue>) -> (r: Option<&'a JsonValue>)
    ensures
        match first_step(
            match v {
                Some(x) => Some(*x),
                None => None,
            },
        ) {
            Some(x) => r matches Some(y) && *y == x,
            None => r is None,
        },
{
    proof {
        reveal_strlit("0");
    }
    match v {
        Some(JsonValue::Array(a)) => {
            if a.len() > 0 {
                Some(&a[0])
            } else {
                None
            }
        },
        Some(JsonValue::Object(_)) => member_ref(v, "0"),
        _ => None,
    }
}

/// The model ids of a model list body: `None` when the body is not JSON,
/// else the `id` of every entry of its `data` array that has a string one,
/// in order.
pub fn model_ids(body: &str) -> (r: Option<Vec<String>>)
    ensures
        match json_parsed(body@) {
            None => r is None,
            Some(v) => r matches Some(ids) && ids@.map_values(|s: String| s@) == ids_of(v),
        },
{
    proof {
        reveal_strlit("data");
        reveal_strlit("id");
    }
    let parsed = parse_json(body);
    match &parsed {
        None => None,
        Some(v) => {
            let mut ids: Vec<String> = Vec::new();
            match member_ref(Some(v), "data") {
                Some(JsonValue::Array(items)) => {
                    let mut i: usize = 0;
                    while i < items.len()
                        invariant
                            i <= items@.len(),
                            ids@.map_values(|s: String| s@) == ids_in(items@.take(i as int)),
                        decreases items.len() - i,
                    {
                        let ghost before = ids@;
                        proof {
                            assert(items@.take(i + 1).drop_last() =~= items@.take(i as int));
                            assert(items@.take(i + 1).last() == items@[i as int]);
                        }
                        match member_ref(Some(&items[i]), "id") {
                            Some(JsonValue::Str(s)) => {
                                ids.push(s.clone());
                                proof {
                                    assert(ids@.map_values(|s: String| s@) =~= before.map_values(|s: String| s@).push(s@));
                                }
                            },
                            _ => {
                                proof {
                                    assert(ids@.map_values(|s: String| s@) =~= before.map_values(|s: String| s@) + Seq::<Seq<char>>::empty());
                                }
                            },
                        }
                        i += 1;
                    }
                    proof {
                        assert(items@.take(items@.len() as int) =~= items@);
                    }
                },
                _ => {
                    proof {
                        assert(ids@.map_values(|s: String| s@) =~= Seq::<Seq<char>>::empty());
                    }
                },
            }
            Some(ids)
        },
    }
}

/// The stream cell of one `data:` payload: the cell of its
/// `/choices/0/delta` (a non-empty `content` first, else a non-empty
/// `reasoning_content`), or none when the payload is not JSON or has no
/// delta.
pub fn delta_of_payload(data: &str) -> (r: Option<StreamChunk>)
    ensures
        match payload_delta(json_parsed(data@)) {
            None => r is None,
            Some(d) => match delta_cell(
                text_value(member(Some(d), "content"@)),
                text_value(member(Some(d), "reasoning_content"@)),
            ) {
                Some((true, t)) => r matches Some(StreamChunk::ContentDelta(s)) && s@ == t,
                Some((false, t)) => r matches Some(StreamChunk::ReasoningDelta(s)) && s@ == t,
                None => r is None,
            },
        },
{
    let parsed = parse_json(data);
    let delta = member_ref(first_ref(member_ref(parsed.as_ref(), "choices")), "delta");
    match delta {
        None => None,
        Some(d) => {
            let content = match member_ref(Some(d), "content") {
                Some(JsonValue::Str(s)) => Some(s.clone()),
                _ => None,
            };
            let reasoning = match member_ref(Some(d), "reasoning_content") {
                Some(JsonValue::Str(s)) => Some(s.clone()),
                _ => None,
            };
            delta_chunk(content, reasoning)
        },
    }
}

/// The message of a failed response's body: the text at `/error/message`
/// when the body is JSON holding one, the raw body otherwise.
pub fn error_text(body: &str) -> (r: String)
    ensures
        r@ == error_text_of(body@, json_parsed(body@)),
{
    let parsed = parse_json(body);
    match member_ref(member_ref(parsed.as_ref(), "error"), "message") {
        Some(JsonValue::Str(m)) => m.clone(),
        _ => String::from_str(body),
    }
}

} // verus!

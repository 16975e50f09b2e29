//! A JSON document as plain values, and the lookups the cargo metadata
//! checks make in it.
use vstd::prelude::*;

use crate::text::str_eq;

verus! {

/// A JSON value.  Numbers keep their text; an object keeps its fields in
/// the order the parser hands them out.
pub enum JsonValue {
    Null,
    Bool(bool),
    Number(String),
    Text(String),
    Array(Vec<JsonValue>),
    Object(Vec<JsonField>),
}

/// One field of a JSON object.
pub struct JsonField {
    pub key: String,
    pub value: JsonValue,
}

#[verifier::external_type_specification]
#[verifier::external_body]
pub struct ExSerdeJsonValue(serde_json::Value);

/// The document `serde_json` reads from `text`, or the message of its
/// error.
pub uninterp spec fn json_document(text: Seq<char>) -> Result<JsonValue, Seq<char>>;

/// Rebuilds a `serde_json::Value` as a `JsonValue`, variant by variant
/// (a number by its `Display` text); fields keep the map's order.
#[verifier::external_body]
fn tree_of(v: serde_json::Value) -> JsonValue {
    match v {
        serde_json::Value::Null => JsonValue::Null,
        serde_json::Value::Bool(b) => JsonValue::Bool(b),
        serde_json::Value::Number(n) => JsonValue::Number(n.to_string()),
        serde_json::Value::String(s) => JsonValue::Text(s),
        serde_json::Value::Array(a) => JsonValue::Array(a.into_iter().map(tree_of).collect()),
        serde_json::Value::Object(m) => JsonValue::Object(
            m.into_iter().map(|(key, value)| JsonField { key, value: tree_of(value) }).collect(),
        ),
    }
}

/// `serde_json::from_str::<serde_json::Value>`: the parsed document, or
/// the `Display` text of the parse error.  The contract ties the result to
/// the text by name only; that a document was parsed is not stated.
#[verifier::external_body]
pub(crate) fn parse_json(text: &str) -> (r: Result<JsonValue, String>)
    ensures
        match r {
            Ok(v) => json_document(text@) == Ok::<JsonValue, Seq<char>>(v),
            Err(e) => json_document(text@) == Err::<JsonValue, Seq<char>>(e@),
        },
{
    match serde_json::from_str::<serde_json::Value>(text) {
        Ok(v) => Ok(tree_of(v)),
        Err(e) => Err(e.to_string()),
    }
}

/// The value of the first field named `key`.
pub open spec fn field_value(fields: Seq<JsonField>, key: Seq<char>) -> Option<JsonValue>
    decreases fields.len(),
{
    if fields.len() == 0 {
        None
    } else if fields[0].key@ == key {
        Some(fields[0].value)
    } else {
        field_value(fields.drop_first(), key)
    }
}

/// `value[key]` for an object, nothing for any other value.
pub open spec fn json_get(v: JsonValue, key: Seq<char>) -> Option<JsonValue> {
    match v {
        JsonValue::Object(fields) => field_value(fields@, key),
        _ => None,
    }
}

/// The fields of an object.
pub open spec fn as_object(v: Option<JsonValue>) -> Option<Seq<JsonField>> {
    match v {
        Some(JsonValue::Object(fields)) => Some(fields@),
        _ => None,
    }
}

/// The items of an array.
pub open spec fn as_array(v: Option<JsonValue>) -> Option<Seq<JsonValue>> {
    match v {
        Some(JsonValue::Array(items)) => Some(items@),
        _ => None,
    }
}

/// The string items of a list of values, in order.
pub open spec fn string_items(items: Seq<JsonValue>) -> Seq<Seq<char>>
    decreases items.len(),
{
    if items.len() == 0 {
        seq![]
    } else {
        let prev = string_items(items.drop_last());
        match items.last() {
            JsonValue::Text(s) => prev.push(s@),
            _ => prev,
        }
    }
}

/// The value of the field `key` of `v`, when `v` is an object that has it.
pub fn get_field<'a>(v: &'a JsonValue, key: &str) -> (r: Option<&'a JsonValue>)
    ensures
        match r {
            Some(x) => json_get(*v, key@) == Some(*x),
            None => json_get(*v, key@) is None,
        },
{
    match v {
        JsonValue::Object(fields) => {
            let mut i: usize = 0;
            assert(json_get(*v, key@) == field_value(fields@, key@));
            assert(fields@.skip(0) =~= fields@);
            while i < fields.len()
                invariant
                    i <= fields@.len(),
                    json_get(*v, key@) == field_value(fields@, key@),
                    field_value(fields@, key@) == field_value(fields@.skip(i as int), key@),
                decreases fields@.len() - i,
            {
                assert(fields@.skip(i as int).drop_first() =~= fields@.skip(i + 1));
                assert(fields@.skip(i as int)[0] == fields@[i as int]);
                if str_eq(fields[i].key.as_str(), key) {
                    assert(field_value(fields@.skip(i as int), key@) == Some(fields@[i as int].value));
                    return Some(&fields[i].value);
                }
                i += 1;
            }
            None
        },
        _ => None,
    }
}

/// The string items of `items`, in order.
pub fn strings_of(items: &Vec<JsonValue>) -> (r: Vec<String>)
    ensures
        r@.map_values(|s: String| s@) == string_items(items@),
{
    let mut r: Vec<String> = Vec::new();
    let mut i: usize = 0;
    while i < items.len()
        invariant
            i <= items@.len(),
            r@.map_values(|s: String| s@) == string_items(items@.take(i as int)),
        decreases items@.len() - i,
    {
        assert(items@.take(i + 1).drop_last() =~= items@.take(i as int));
        assert(items@.take(i + 1).last() == items@[i as int]);
        match &items[i] {
            JsonValue::Text(s) => {
                let ghost before = r@;
                r.push(s.clone());
                assert(r@.map_values(|s: String| s@) =~= before.map_values(|s: String| s@).push(
                    s@,
                ));
            },
            _ => {},
        }
        i += 1;
    }
    assert(items@.take(items@.len() as int) =~= items@);
    r
}

/// The fields of the `installs` object of a `.crates2.json` document.
pub open spec fn install_fields(doc: JsonValue) -> Option<Seq<JsonField>> {
    as_object(json_get(doc, "installs"@))
}

/// The fields of the `installs` object of `doc`, when it has one.
pub fn installs_of(doc: &JsonValue) -> (r: Option<&Vec<JsonField>>)
    ensures
        match r {
            Some(f) => install_fields(*doc) == Some(f@),
            None => install_fields(*doc) is None,
        },
{
    match get_field(doc, "installs") {
        Some(JsonValue::Object(fields)) => Some(fields),
        _ => None,
    }
}

} // verus!

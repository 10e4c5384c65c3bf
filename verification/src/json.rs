//! Reading JSON one layer at a time: the values inside an array or an object are again JSON text.

use crate::text::same_text;
use serde_json::Value;
use vstd::prelude::*;
use vstd::utf8::encode_utf8;

verus! {

/// The outermost layer of a JSON document.
#[derive(Debug, PartialEq, Eq)]
pub enum Json {
    /// A string.
    Text(String),
    /// An array, with the JSON text of each item.
    Array(Vec<String>),
    /// An object, with the JSON text of each value under its key.
    Object(Vec<(String, String)>),
    /// A number, a boolean or null.
    Other,
}

/// The contents of a [`Json`].
#[verifier::ext_equal]
pub enum JsonView {
    Text(Seq<char>),
    Array(Seq<Seq<char>>),
    Object(Seq<(Seq<char>, Seq<char>)>),
    Other,
}

impl View for Json {
    type V = JsonView;

    open spec fn view(&self) -> JsonView {
        match *self {
            Json::Text(text) => JsonView::Text(text@),
            Json::Array(items) => JsonView::Array(text_views(items@)),
            Json::Object(fields) => JsonView::Object(field_views(fields@)),
            Json::Other => JsonView::Other,
        }
    }
}

/// Texts by their characters.
pub open spec fn text_views(texts: Seq<String>) -> Seq<Seq<char>> {
    Seq::new(texts.len(), |i: int| texts[i]@)
}

/// Keys and values by their characters.
pub open spec fn field_views(fields: Seq<(String, String)>) -> Seq<(Seq<char>, Seq<char>)> {
    Seq::new(fields.len(), |i: int| (fields[i].0@, fields[i].1@))
}

/// A text by its characters, where there is one.
pub open spec fn optional_text(text: Option<String>) -> Option<Seq<char>> {
    match text {
        Some(text) => Some(text@),
        None => None,
    }
}

/// The outermost layer of the JSON document that bytes hold, or the words in which bytes that hold
/// none are refused.
pub uninterp spec fn json_layer(bytes: Seq<u8>) -> Result<JsonView, Seq<char>>;

/// Calls `from_slice` of `serde_json` and takes the value's outermost layer, with the values inside
/// it turned back into text by `serde_json`; bytes that are refused give the error's words. What
/// comes back depends on the bytes alone.
#[verifier::external_body]
pub(crate) fn parse_json(bytes: &[u8]) -> (result: Result<Json, String>)
    ensures
        match result {
            Ok(json) => json_layer(bytes@) == Ok::<JsonView, Seq<char>>(json@),
            Err(words) => json_layer(bytes@) == Err::<JsonView, Seq<char>>(words@),
        },
{
    Ok(match serde_json::from_slice::<Value>(bytes).map_err(|error| error.to_string())? {
        Value::String(text) => Json::Text(text),
        Value::Array(items) => Json::Array(items.iter().map(|item| item.to_string()).collect()),
        Value::Object(fields) => Json::Object(fields.into_iter().map(|(key, value)| (key, value.to_string())).collect()),
        Value::Null | Value::Bool(_) | Value::Number(_) => Json::Other,
    })
}

/// The outermost layer of the JSON document that a text holds.
pub open spec fn text_layer(text: Seq<char>) -> Result<JsonView, Seq<char>> {
    json_layer(encode_utf8(text))
}

/// The outermost layer of the JSON document that a text holds.
pub(crate) fn parse_text(text: &str) -> (result: Result<Json, String>)
    ensures
        match result {
            Ok(json) => text_layer(text@) == Ok::<JsonView, Seq<char>>(json@),
            Err(words) => text_layer(text@) == Err::<JsonView, Seq<char>>(words@),
        },
{
    parse_json(text.as_bytes())
}

/// The value under the first occurrence of a key from `i` on.
pub open spec fn value_under(
    fields: Seq<(Seq<char>, Seq<char>)>,
    key: Seq<char>,
    i: int,
) -> Option<Seq<char>>
    decreases fields.len() - i,
{
    if i >= fields.len() {
        None
    } else if fields[i].0 == key {
        Some(fields[i].1)
    } else {
        value_under(fields, key, i + 1)
    }
}

impl JsonView {
    /// The value under a key; only an object has one.
    pub open spec fn get(self, key: Seq<char>) -> Option<Seq<char>> {
        match self {
            JsonView::Object(fields) => value_under(fields, key, 0),
            _ => None,
        }
    }
}

impl Json {
    /// The value under a key; only an object has one.
    pub fn get(&self, key: &str) -> (result: Option<String>)
        ensures
            optional_text(result) == self@.get(key@),
    {
        match self {
            Json::Object(fields) => {
                let ghost view = field_views(fields@);
                let mut i: usize = 0;
                while i < fields.len()
                    invariant
                        i <= fields@.len(),
                        view == field_views(fields@),
                        self@ == JsonView::Object(view),
                        value_under(view, key@, 0) == value_under(view, key@, i as int),
                    decreases fields@.len() - i,
                {
                    assert(view[i as int] == (fields@[i as int].0@, fields@[i as int].1@));
                    if same_text(fields[i].0.as_str(), key) {
                        return Some(fields[i].1.clone());
                    }
                    i = i + 1;
                }
                None
            },
            _ => None,
        }
    }
}

impl JsonView {
    /// Whether an object holds a value under a key; null is none.
    pub open spec fn holds(self, key: Seq<char>) -> bool {
        self.get(key) matches Some(value) && value != "null"@
    }
}

impl Json {
    /// Whether an object holds a value under a key; null is none.
    pub fn holds(&self, key: &str) -> (result: bool)
        ensures
            result == self@.holds(key@),
    {
        match self.get(key) {
            Some(value) => !same_text(value.as_str(), "null"),
            None => false,
        }
    }
}

/// The value under a key of a JSON object; anything else has none.
pub open spec fn json_field(text: Seq<char>, key: Seq<char>) -> Option<Seq<char>> {
    match text_layer(text) {
        Ok(layer) => layer.get(key),
        Err(_) => None,
    }
}

/// The string under a key of a JSON object.
pub open spec fn json_text(text: Seq<char>, key: Seq<char>) -> Option<Seq<char>> {
    match json_field(text, key) {
        Some(value) => match text_layer(value) {
            Ok(JsonView::Text(found)) => Some(found),
            _ => None,
        },
        None => None,
    }
}

/// The array under a key of a JSON object.
pub open spec fn json_array(text: Seq<char>, key: Seq<char>) -> Option<Seq<Seq<char>>> {
    match json_field(text, key) {
        Some(value) => match text_layer(value) {
            Ok(JsonView::Array(items)) => Some(items),
            _ => None,
        },
        None => None,
    }
}

/// The value under a key of a JSON object.
pub fn field(text: &str, key: &str) -> (result: Option<String>)
    ensures
        optional_text(result) == json_field(text@, key@),
{
    match parse_text(text) {
        Ok(layer) => layer.get(key),
        Err(_) => None,
    }
}

/// The string under a key of a JSON object.
pub fn text_field(text: &str, key: &str) -> (result: Option<String>)
    ensures
        optional_text(result) == json_text(text@, key@),
{
    let value: String = field(text, key)?;
    match parse_text(value.as_str()) {
        Ok(Json::Text(found)) => Some(found),
        _ => None,
    }
}

/// The array under a key of a JSON object.
pub fn array_field(text: &str, key: &str) -> (result: Option<Vec<String>>)
    ensures
        match result {
            Some(items) => json_array(text@, key@) == Some(text_views(items@)),
            None => json_array(text@, key@) is None,
        },
{
    let value: String = field(text, key)?;
    match parse_text(value.as_str()) {
        Ok(Json::Array(items)) => Some(items),
        _ => None,
    }
}

/// Whether the first occurrence of a key among an object's fields stands at a place.
pub open spec fn first_under(fields: Seq<(Seq<char>, Seq<char>)>, key: Seq<char>, at: int) -> bool {
    &&& 0 <= at < fields.len()
    &&& fields[at].0 == key
    &&& forall|j: int| 0 <= j < at ==> (#[trigger] fields[j]).0 != key
}

proof fn lemma_first_under(fields: Seq<(Seq<char>, Seq<char>)>, key: Seq<char>, i: int, at: int)
    requires
        0 <= i <= at,
        first_under(fields, key, at),
    ensures
        value_under(fields, key, i) == Some(fields[at].1),
    decreases at - i,
{
    if i < at {
        lemma_first_under(fields, key, i + 1, at);
    }
}

proof fn lemma_nothing_under(fields: Seq<(Seq<char>, Seq<char>)>, key: Seq<char>, i: int)
    requires
        0 <= i,
        forall|j: int| 0 <= j < fields.len() ==> (#[trigger] fields[j]).0 != key,
    ensures
        value_under(fields, key, i) is None,
    decreases fields.len() - i,
{
    if i < fields.len() {
        lemma_nothing_under(fields, key, i + 1);
    }
}

/// An object's value under a key is the one behind the key's first occurrence. It holds one where that
/// is there and is not `null`. A key that does not occur has none, and neither has any other document.
pub proof fn law_value_stands_under_its_key(
    json: &Json,
    key: &str,
    at: int,
    found: Option<String>,
    held: bool,
)
    requires
        call_ensures(Json::get, (json, key), found),
        call_ensures(Json::holds, (json, key), held),
    ensures
        json@ matches JsonView::Object(fields) ==> {
            &&& first_under(fields, key@, at) ==> found is Some && found->0@ == fields[at].1
            &&& first_under(fields, key@, at) ==> (held <==> fields[at].1 != "null"@)
            &&& (forall|j: int| 0 <= j < fields.len() ==> (#[trigger] fields[j]).0 != key@)
                ==> found is None && !held
        },
        !(json@ is Object) ==> found is None && !held,
{
    if json@ is Object {
        let fields = json@->Object_0;
        if first_under(fields, key@, at) {
            lemma_first_under(fields, key@, 0, at);
        }
        if forall|j: int| 0 <= j < fields.len() ==> (#[trigger] fields[j]).0 != key@ {
            lemma_nothing_under(fields, key@, 0);
        }
    }
}

/// A text's value under a key is the one of the object that it holds; a string under the key is its
/// characters and an array its items, and a value of another kind is neither.
pub proof fn law_fields_are_read_by_their_kind(
    text: &str,
    key: &str,
    value: Option<String>,
    string: Option<String>,
    array: Option<Vec<String>>,
)
    requires
        call_ensures(field, (text, key), value),
        call_ensures(text_field, (text, key), string),
        call_ensures(array_field, (text, key), array),
    ensures
        text_layer(text@) is Err ==> value is None,
        text_layer(text@) is Ok ==> optional_text(value) == text_layer(text@)->Ok_0.get(key@),
        string is Some <==> value is Some && text_layer(value->0@) is Ok && text_layer(
            value->0@,
        )->Ok_0 is Text,
        string is Some ==> text_layer(value->0@)->Ok_0 == JsonView::Text(string->0@),
        array is Some <==> value is Some && text_layer(value->0@) is Ok && text_layer(
            value->0@,
        )->Ok_0 is Array,
        array is Some ==> text_layer(value->0@)->Ok_0 == JsonView::Array(text_views(array->0@)),
{
}

} // verus!

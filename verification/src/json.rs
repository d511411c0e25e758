//! JSON documents as the parsers read them, and how they are looked into.

use vstd::prelude::*;
use vstd::string::*;

verus! {

/// A JSON value. Of a number only what is read of one is kept: its value as an
/// unsigned integer, where it has one.
#[derive(Debug, PartialEq)]
pub enum Json {
    Null,
    Bool(bool),
    Number(Option<u64>),
    Text(String),
    Array(Vec<Json>),
    Object(Vec<(String, Json)>),
}

/// What a [`Json`] says.
#[verifier::ext_equal]
pub enum JsonView {
    Null,
    Bool(bool),
    Number(Option<u64>),
    Text(Seq<char>),
    Array(Seq<JsonView>),
    Object(Seq<(Seq<char>, JsonView)>),
}

/// What a JSON value says.
pub open spec fn json_view(json: Json) -> JsonView
    decreases json,
{
    match json {
        Json::Null => JsonView::Null,
        Json::Bool(value) => JsonView::Bool(value),
        Json::Number(value) => JsonView::Number(value),
        Json::Text(text) => JsonView::Text(text@),
        Json::Array(items) => JsonView::Array(
            Seq::new(
                items@.len(),
                |i: int|
                    if 0 <= i < items@.len() {
                        json_view(items@[i])
                    } else {
                        JsonView::Null
                    },
            ),
        ),
        Json::Object(members) => JsonView::Object(
            Seq::new(
                members@.len(),
                |i: int|
                    if 0 <= i < members@.len() {
                        (members@[i].0@, json_view(members@[i].1))
                    } else {
                        (Seq::empty(), JsonView::Null)
                    },
            ),
        ),
    }
}

impl View for Json {
    type V = JsonView;

    open spec fn view(&self) -> JsonView {
        json_view(*self)
    }
}

/// serde_json's own representation of a value.
#[verifier::external_type_specification]
#[verifier::external_body]
pub struct ExternalJsonValue(serde_json::Value);

/// What JSON values say.
pub open spec fn json_views(items: Seq<Json>) -> Seq<JsonView> {
    items.map_values(|json: Json| json@)
}

/// What an optional JSON value says.
pub open spec fn optional_json(json: Option<Json>) -> Option<JsonView> {
    match json {
        Some(json) => Some(json@),
        None => None,
    }
}

proof fn lemma_array_view(items: Vec<Json>)
    ensures
        Json::Array(items)@ == JsonView::Array(json_views(items@)),
{
    assert(Json::Array(items)@->Array_0 =~= json_views(items@));
}

/// What `serde_json::from_slice` reads from `bytes`, if they hold one JSON
/// document.
pub uninterp spec fn json_document(bytes: Seq<u8>) -> Option<JsonView>;

/// Reads one JSON document with `serde_json::from_slice`, which gives a value
/// or an error as a function of the bytes alone.
#[verifier::external_body]
pub(crate) fn read_json(bytes: &[u8]) -> (document: Option<Json>)
    ensures
        optional_json(document) == json_document(bytes@),
{
    serde_json::from_slice(bytes).ok().map(from_value)
}

/// Turns a `serde_json::Value` into a [`Json`], variant by variant, with
/// `Number::as_u64` for numbers. Nothing is claimed of it beyond what
/// [`read_json`] names.
#[verifier::external_body]
fn from_value(value: serde_json::Value) -> (json: Json)
{
    match value {
        serde_json::Value::Null => Json::Null,
        serde_json::Value::Bool(value) => Json::Bool(value),
        serde_json::Value::Number(number) => Json::Number(number.as_u64()),
        serde_json::Value::String(text) => Json::Text(text),
        serde_json::Value::Array(items) => Json::Array(items.into_iter().map(from_value).collect()),
        serde_json::Value::Object(members) => {
            Json::Object(members.into_iter().map(|(key, value)| (key, from_value(value))).collect())
        },
    }
}

/// The position of the first member called `key`.
pub open spec fn member_position(members: Seq<(Seq<char>, JsonView)>, key: Seq<char>) -> Option<
    int,
> {
    crate::seqs::first_where(members.len(), |i: int| members[i].0 == key)
}

/// The member `key` of an object.
#[verifier::opaque]
pub open spec fn member(json: JsonView, key: Seq<char>) -> Option<JsonView> {
    match json {
        JsonView::Object(members) => match member_position(members, key) {
            Some(position) => Some(members[position].1),
            None => None,
        },
        _ => None,
    }
}

/// The member `key` of a value that may be absent.
pub open spec fn step(found: Option<JsonView>, key: Seq<char>) -> Option<JsonView> {
    match found {
        Some(json) => member(json, key),
        None => None,
    }
}

/// The text of a value that may be absent or no string.
pub open spec fn text_of(found: Option<JsonView>) -> Option<Seq<char>> {
    match found {
        Some(JsonView::Text(text)) => Some(text),
        _ => None,
    }
}

/// The elements of a value that may be absent or no array.
pub open spec fn elements_of(found: Option<JsonView>) -> Option<Seq<JsonView>> {
    match found {
        Some(JsonView::Array(items)) => Some(items),
        _ => None,
    }
}

/// The unsigned integer of a value, or zero where it is absent or no such
/// number.
pub open spec fn number_of(found: Option<JsonView>) -> u64 {
    match found {
        Some(JsonView::Number(Some(value))) => value,
        _ => 0,
    }
}

/// The value behind an optional reference.
pub open spec fn found(reference: Option<&Json>) -> Option<JsonView> {
    match reference {
        Some(json) => Some(json@),
        None => None,
    }
}

/// The text behind an optional reference.
pub open spec fn found_text(reference: Option<&String>) -> Option<Seq<char>> {
    match reference {
        Some(text) => Some(text@),
        None => None,
    }
}

/// The elements behind an optional reference.
pub open spec fn found_elements(reference: Option<&Vec<Json>>) -> Option<Seq<JsonView>> {
    match reference {
        Some(items) => Some(json_views(items@)),
        None => None,
    }
}

/// The member `key` of an object.
pub fn get<'a>(json: &'a Json, key: &str) -> (found: Option<&'a Json>)
    ensures
        match found {
            Some(value) => member(json@, key@) == Some(value@),
            None => member(json@, key@) is None,
        },
{
    reveal(member);
    match json {
        Json::Object(members) => {
            let ghost shown = json@->Object_0;
            let mut index: usize = 0;
            while index < members.len()
                invariant
                    index <= members.len(),
                    *json == Json::Object(*members),
                    json@ == JsonView::Object(shown),
                    shown.len() == members@.len(),
                    forall|j: int|
                        0 <= j < shown.len() ==> #[trigger] shown[j] == (
                            members@[j].0@,
                            members@[j].1@,
                        ),
                    forall|j: int| 0 <= j < index ==> (#[trigger] shown[j]).0 != key@,
                decreases members.len() - index,
            {
                assert(shown[index as int].0 == members@[index as int].0@);
                if crate::text::same_text(members[index].0.as_str(), key) {
                    proof {
                        reveal(member);
                        crate::seqs::lemma_first_where(
                            shown.len(),
                            |i: int| shown[i].0 == key@,
                            index as int,
                        );
                    }
                    return Some(&members[index].1);
                }
                index = index + 1;
            }
            None
        },
        _ => None,
    }
}

/// The member `key` of a value that may be absent.
pub fn enter<'a>(json: Option<&'a Json>, key: &str) -> (result: Option<&'a Json>)
    ensures
        found(result) == step(found(json), key@),
{
    match json {
        Some(json) => get(json, key),
        None => None,
    }
}

/// The text of a value that may be absent or no string.
pub fn as_text<'a>(json: Option<&'a Json>) -> (text: Option<&'a String>)
    ensures
        found_text(text) == text_of(found(json)),
{
    match json {
        Some(Json::Text(text)) => Some(text),
        _ => None,
    }
}

/// The elements of a value that may be absent or no array.
pub fn as_elements<'a>(json: Option<&'a Json>) -> (items: Option<&'a Vec<Json>>)
    ensures
        found_elements(items) == elements_of(found(json)),
{
    match json {
        Some(Json::Array(items)) => {
            proof {
                lemma_array_view(*items);
            }
            Some(items)
        },
        _ => None,
    }
}

/// The unsigned integer of a value, or zero.
pub fn as_number(json: Option<&Json>) -> (value: u64)
    ensures
        value == number_of(found(json)),
{
    match json {
        Some(Json::Number(Some(value))) => *value,
        _ => 0,
    }
}

} // verus!

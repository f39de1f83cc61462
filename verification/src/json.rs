//! JSON documents.
//!
//! The server keeps, reads and builds its JSON with `serde_json`. A
//! `serde_json::Value` is opaque to the verifier, so this module gives the
//! tree that such a value holds a mathematical form, [`Json`], and wraps each
//! `serde_json` operation that the server uses in a function whose contract
//! says what the operation does to that tree. Those contracts are taken on
//! trust: they restate the behaviour of `serde_json`, built with its default
//! features (objects are ordered maps; numbers are 64-bit).

use serde_json::Value;
use vstd::prelude::*;

verus! {

/// A JSON document as a mathematical tree.
pub enum Json {
    Null,
    Bool(bool),
    /// A number that is held as an integer.
    Integer(int),
    /// A number that is held in binary floating point, given by the 64 bits
    /// of its representation.
    Real(u64),
    Text(Seq<char>),
    Array(Seq<Json>),
    /// An object: its members by key. The order of the keys is no part of an
    /// object.
    Object(Map<Seq<char>, Json>),
}

/// `serde_json::Value`, declared so that it can stand in signatures and
/// fields. Nothing inside a value is visible; what it holds is [`json_of`].
#[verifier::external_type_specification]
#[verifier::external_body]
pub struct ExValue(serde_json::Value);

/// `serde_json::Map`, declared so that it can stand in signatures. Nothing
/// inside a map is visible; what it holds is [`members_of`].
#[verifier::external_type_specification]
#[verifier::external_body]
#[verifier::reject_recursive_types(K)]
#[verifier::reject_recursive_types(V)]
pub struct ExMap<K, V>(serde_json::Map<K, V>);

/// The members of a JSON object while it is built.
pub type Members = serde_json::Map<String, Value>;

/// The document that a `serde_json::Value` holds. The document is the whole
/// of the value: what `serde_json` reads from a value or writes for it
/// depends on the document alone.
pub uninterp spec fn json_of(value: Value) -> Json;

/// The members that a `serde_json::Map` holds, by key.
pub uninterp spec fn members_of(members: Members) -> Map<Seq<char>, Json>;

/// What `serde_json::from_str` makes of a text: the document that the text
/// denotes, or `None` where the text is not one JSON document.
pub uninterp spec fn parsed_text(text: Seq<char>) -> Option<Json>;

/// The text that `serde_json::to_string` writes for a document: JSON on one
/// line, without white space between the tokens.
pub uninterp spec fn compact_text(doc: Json) -> Seq<char>;

/// The text that `serde_json::to_string_pretty` writes for a document: JSON
/// over several lines, indented by two spaces for each level.
pub uninterp spec fn pretty_text(doc: Json) -> Seq<char>;

/// No members: what the empty object holds.
pub open spec fn no_members() -> Map<Seq<char>, Json> {
    Map::empty()
}

/// The member of an object under a key; `None` where the document is no
/// object or has no such member.
pub open spec fn member(doc: Json, key: Seq<char>) -> Option<Json> {
    match doc {
        Json::Object(members) => if members.contains_key(key) {
            Some(members[key])
        } else {
            None
        },
        _ => None,
    }
}

/// The member of an object under a key, and `Null` where there is none.
pub open spec fn member_or_null(doc: Json, key: Seq<char>) -> Json {
    match member(doc, key) {
        Some(found) => found,
        None => Json::Null,
    }
}

/// The characters of a JSON string, and the empty text for any other
/// document.
pub open spec fn text_or_empty(doc: Json) -> Seq<char> {
    match doc {
        Json::Text(characters) => characters,
        _ => Seq::empty(),
    }
}

/// The members of an object, and none for any other document.
pub open spec fn members_or_none(doc: Json) -> Map<Seq<char>, Json> {
    match doc {
        Json::Object(members) => members,
        _ => no_members(),
    }
}

/// The documents that a sequence of values holds, in order.
pub open spec fn documents(values: Seq<Value>) -> Seq<Json> {
    values.map_values(|value: Value| json_of(value))
}

/// A JSON value of `serde_json`, seen as the document that it holds.
pub struct JsonDoc {
    value: Value,
}

impl View for JsonDoc {
    type V = Json;

    closed spec fn view(&self) -> Json {
        json_of(self.value)
    }
}

impl JsonDoc {
    /// Takes a value for the document that it holds.
    pub fn new(value: Value) -> (doc: Self)
        ensures
            doc@ == json_of(value),
    {
        JsonDoc { value }
    }

    /// The value that holds the document.
    pub fn value(&self) -> (value: &Value)
        ensures
            json_of(*value) == self@,
    {
        &self.value
    }
}

/// Reads a text as one JSON document.
///
/// Calls `serde_json::from_str` for a `Value` and drops the error's detail.
/// Claimed: the outcome depends on the text alone, and is named
/// [`parsed_text`].
#[verifier::external_body]
pub(crate) fn parse(text: &str) -> (parsed: Option<Value>)
    ensures
        match parsed {
            Some(value) => parsed_text(text@) == Some(json_of(value)),
            None => parsed_text(text@) is None,
        },
{
    serde_json::from_str::<Value>(text).ok()
}

/// Writes a document on one line.
///
/// Calls `serde_json::to_string`. Claimed: for a `Value` the call succeeds
/// (the serializer fails only where a writer fails or a key is no string, and
/// here it writes to memory and every key is a `String`), and the text
/// depends on the document alone; it is named [`compact_text`].
#[verifier::external_body]
pub(crate) fn to_compact(value: &Value) -> (text: String)
    ensures
        text@ == compact_text(json_of(*value)),
{
    serde_json::to_string(value).unwrap_or_default()
}

/// Writes a document over several lines, indented.
///
/// Calls `serde_json::to_string_pretty`. Claimed: for a `Value` the call
/// succeeds, for the reason given at [`to_compact`], and the text depends on
/// the document alone; it is named [`pretty_text`].
#[verifier::external_body]
pub(crate) fn to_pretty(value: &Value) -> (text: String)
    ensures
        text@ == pretty_text(json_of(*value)),
{
    serde_json::to_string_pretty(value).unwrap_or_default()
}

/// The member of an object under a key.
///
/// Calls `Value::get` with a string key. Claimed: it finds the member where
/// the value is an object that has the key, and nothing otherwise.
#[verifier::external_body]
pub(crate) fn get<'a>(value: &'a Value, key: &str) -> (found: Option<&'a Value>)
    ensures
        match found {
            Some(item) => member(json_of(*value), key@) == Some(json_of(*item)),
            None => member(json_of(*value), key@) is None,
        },
{
    value.get(key)
}

/// The characters of a JSON string.
///
/// Calls `Value::as_str`. Claimed: it gives the string's text where the value
/// is a string, and nothing otherwise.
#[verifier::external_body]
pub(crate) fn as_text<'a>(value: &'a Value) -> (found: Option<&'a str>)
    ensures
        match found {
            Some(characters) => json_of(*value) == Json::Text(characters@),
            None => !(json_of(*value) is Text),
        },
{
    value.as_str()
}

/// Whether a value is JSON's `null`.
///
/// Calls `Value::is_null`. Claimed: it holds of `null` and of nothing else.
#[verifier::external_body]
pub(crate) fn is_null(value: &Value) -> (null: bool)
    ensures
        null == (json_of(*value) is Null),
{
    value.is_null()
}

/// Whether a value is a JSON object.
///
/// Calls `Value::is_object`. Claimed: it holds of the objects and of nothing
/// else.
#[verifier::external_body]
pub(crate) fn is_object(value: &Value) -> (object: bool)
    ensures
        object == (json_of(*value) is Object),
{
    value.is_object()
}

/// A copy of a value.
///
/// Calls `Value::clone`. Claimed: the copy holds the same document.
#[verifier::external_body]
pub(crate) fn duplicate(value: &Value) -> (copy: Value)
    ensures
        json_of(copy) == json_of(*value),
{
    value.clone()
}

/// JSON's `null`.
///
/// Makes the variant `Value::Null`. Claimed: it holds `null`.
#[verifier::external_body]
pub(crate) fn null() -> (value: Value)
    ensures
        json_of(value) == Json::Null,
{
    Value::Null
}

/// A JSON string with the given characters.
///
/// Makes the variant `Value::String`. Claimed: it holds the string of those
/// characters.
#[verifier::external_body]
pub(crate) fn text(characters: String) -> (value: Value)
    ensures
        json_of(value) == Json::Text(characters@),
{
    Value::String(characters)
}

/// A JSON number with the given integer value.
///
/// Calls `Value::from` on an `i64`. Claimed: the number is held as that
/// integer, whatever its sign.
#[verifier::external_body]
pub(crate) fn integer(n: i64) -> (value: Value)
    ensures
        json_of(value) == Json::Integer(n as int),
{
    Value::from(n)
}

/// A JSON array of the given items.
///
/// Makes the variant `Value::Array`. Claimed: it holds the array of the
/// items' documents, in their order.
#[verifier::external_body]
pub(crate) fn array(items: Vec<Value>) -> (value: Value)
    ensures
        json_of(value) == Json::Array(documents(items@)),
{
    Value::Array(items)
}

/// An object's members, none yet.
///
/// Calls `serde_json::Map::new`. Claimed: the map is empty.
#[verifier::external_body]
pub(crate) fn new_members() -> (fresh: Members)
    ensures
        members_of(fresh) == no_members(),
{
    serde_json::Map::new()
}

/// Puts a member under a key.
///
/// Calls `serde_json::Map::insert` and drops the member that it replaced, if
/// any. Claimed: afterwards the key maps to the new item and every other key
/// is as before.
#[verifier::external_body]
pub(crate) fn insert(members: &mut Members, key: String, item: Value)
    ensures
        members_of(*final(members)) == members_of(*old(members)).insert(key@, json_of(item)),
{
    members.insert(key, item);
}

/// The JSON object with the given members.
///
/// Makes the variant `Value::Object`. Claimed: it holds the object of the
/// map's members.
#[verifier::external_body]
pub(crate) fn object(members: Members) -> (value: Value)
    ensures
        json_of(value) == Json::Object(members_of(members)),
{
    Value::Object(members)
}

/// Sets the member of an object under a key, in place.
///
/// Assigns through `Value`'s `IndexMut` with a string key, which panics on
/// what is neither an object nor `null`: `requires` leaves those out.
/// Claimed: `null` is taken for the empty object; afterwards the value is the
/// object with the key mapped to the new item and every other member as
/// before.
#[verifier::external_body]
pub(crate) fn set_member(target: &mut Value, key: &str, item: Value)
    requires
        json_of(*old(target)) is Object || json_of(*old(target)) is Null,
    ensures
        json_of(*final(target)) == Json::Object(
            members_or_none(json_of(*old(target))).insert(key@, json_of(item)),
        ),
{
    target[key] = item;
}

} // verus!

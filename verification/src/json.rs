//! JSON documents as plain values.
//!
//! Stored settings, layouts and caches are JSON text. `JsonValue::parse` and
//! `JsonValue::to_text` turn that text into a `JsonValue` and back through
//! `serde_json`; everything the library decides about a document is decided
//! on this type.

use vstd::prelude::*;

verus! {

/// A JSON number, carried through unchanged: the library never looks inside one.
#[verifier::external_type_specification]
#[verifier::external_body]
pub struct ExJsonNumber(serde_json::Number);

/// A JSON value. An object is a list of members in document order.
#[derive(Debug, PartialEq)]
pub enum JsonValue {
    Null,
    Bool(bool),
    Number(serde_json::Number),
    Str(String),
    Array(Vec<JsonValue>),
    Object(Vec<(String, JsonValue)>),
}

impl JsonValue {
    /// The text of a string value.
    pub open spec fn text(self) -> Option<Seq<char>> {
        match self {
            JsonValue::Str(s) => Some(s@),
            _ => None,
        }
    }

    /// The truth value of a boolean value.
    pub open spec fn flag(self) -> Option<bool> {
        match self {
            JsonValue::Bool(b) => Some(b),
            _ => None,
        }
    }

    /// The string inside a string value.
    pub fn as_str(&self) -> (r: Option<&String>)
        ensures
            match r {
                Some(s) => self.text() == Some(s@),
                None => self.text() is None,
            },
    {
        match self {
            JsonValue::Str(s) => Some(s),
            _ => None,
        }
    }

    /// The truth value inside a boolean value.
    pub fn as_bool(&self) -> (r: Option<bool>)
        ensures
            r == self.flag(),
    {
        match self {
            JsonValue::Bool(b) => Some(*b),
            _ => None,
        }
    }

    /// The items of an array value.
    pub fn as_array(&self) -> (r: Option<&Vec<JsonValue>>)
        ensures
            match r {
                Some(items) => *self == JsonValue::Array(*items),
                None => !(self is Array),
            },
    {
        match self {
            JsonValue::Array(items) => Some(items),
            _ => None,
        }
    }
}

/// The texts of the string items of `items`, in order; other items are skipped.
pub open spec fn texts_of(items: Seq<JsonValue>) -> Seq<Seq<char>>
    decreases items.len(),
{
    if items.len() == 0 {
        Seq::empty()
    } else {
        let rest = texts_of(items.drop_last());
        match items.last().text() {
            Some(t) => rest.push(t),
            None => rest,
        }
    }
}

/// The text of an optional string.
pub open spec fn text_of_option(o: Option<String>) -> Option<Seq<char>> {
    match o {
        Some(s) => Some(s@),
        None => None,
    }
}

/// The object that a list of members denotes. A later member replaces an
/// earlier one of the same name, as when a JSON object is read.
pub open spec fn members_map(members: Seq<(String, JsonValue)>) -> Map<Seq<char>, JsonValue>
    decreases members.len(),
{
    if members.len() == 0 {
        Map::empty()
    } else {
        members_map(members.drop_last()).insert(members.last().0@, members.last().1)
    }
}

/// No two members share a name.
pub open spec fn distinct_names(members: Seq<(String, JsonValue)>) -> bool {
    forall|i: int, j: int|
        #![trigger members[i], members[j]]
        0 <= i < members.len() && 0 <= j < members.len() && i != j ==> members[i].0@
            != members[j].0@
}

/// A `serde_json` value, which the text wrappers below convert from and to.
#[verifier::external_type_specification]
#[verifier::external_body]
pub struct ExSerdeValue(serde_json::Value);

/// A value that text keeps exactly: null, a boolean or a string.
pub open spec fn plain_item(value: JsonValue) -> bool {
    value is Null || value is Bool || value is Str
}

/// A member value that text keeps exactly: a plain item, or an array of them.
pub open spec fn plain_member(value: JsonValue) -> bool {
    plain_item(value) || (value matches JsonValue::Array(items) && forall|i: int|
        0 <= i < items@.len() ==> #[trigger] plain_item(items@[i]))
}

/// An object whose members have distinct names and plain values.
pub open spec fn plain_object(value: JsonValue) -> bool {
    value matches JsonValue::Object(members) && distinct_names(members@) && forall|i: int|
        0 <= i < members@.len() ==> #[trigger] plain_member(members@[i].1)
}

/// `text` reads as an object with the same members as the object `value`.
pub open spec fn object_reads_back(text: Seq<char>, value: JsonValue) -> bool {
    json_value_of(text) matches Some(JsonValue::Object(read)) && value matches JsonValue::Object(
        members,
    ) && members_map(read@) == members_map(members@)
}

/// The value that `serde_json` reads from `text`, or nothing when `text` is
/// not JSON.
pub uninterp spec fn json_value_of(text: Seq<char>) -> Option<JsonValue>;

/// The text that `serde_json` writes for `value`.
pub uninterp spec fn json_text_of(value: JsonValue) -> Seq<char>;

/// Converts a `serde_json` value into the library's value, variant for variant.
#[verifier::external_body]
fn from_serde_value(value: serde_json::Value) -> JsonValue {
    match value {
        serde_json::Value::Null => JsonValue::Null,
        serde_json::Value::Bool(b) => JsonValue::Bool(b),
        serde_json::Value::Number(n) => JsonValue::Number(n),
        serde_json::Value::String(s) => JsonValue::Str(s),
        serde_json::Value::Array(items) => JsonValue::Array(items.into_iter().map(from_serde_value).collect()),
        serde_json::Value::Object(m) => JsonValue::Object(m.into_iter().map(|(k, v)| (k, from_serde_value(v))).collect()),
    }
}

/// Converts the library's value into a `serde_json` value, variant for variant.
#[verifier::external_body]
fn to_serde_value(value: &JsonValue) -> serde_json::Value {
    match value {
        JsonValue::Null => serde_json::Value::Null,
        JsonValue::Bool(b) => serde_json::Value::Bool(*b),
        JsonValue::Number(n) => serde_json::Value::Number(n.clone()),
        JsonValue::Str(s) => serde_json::Value::String(s.clone()),
        JsonValue::Array(items) => serde_json::Value::Array(items.iter().map(to_serde_value).collect()),
        JsonValue::Object(m) => serde_json::Value::Object(m.iter().map(|(k, v)| (k.clone(), to_serde_value(v))).collect()),
    }
}

/// Reads `text` with `serde_json::from_str` as a `serde_json::Value`. The
/// contract claims that the value read is the one the name `json_value_of`
/// gives, and that text that is not JSON gives `serde_json`'s message; what
/// the message says is left open.
#[verifier::external_body]
fn parse_json_text(text: &str) -> (r: Result<JsonValue, String>)
    ensures
        match r {
            Ok(value) => json_value_of(text@) == Some(value),
            Err(_) => json_value_of(text@) is None,
        },
{
    match serde_json::from_str::<serde_json::Value>(text) {
        Ok(value) => Ok(from_serde_value(value)),
        Err(e) => Err(e.to_string()),
    }
}

/// Writes `value` with `serde_json`'s `Display` of a `serde_json::Value`. The
/// contract claims that the text is the one the name `json_text_of` gives, and
/// that an object whose members have distinct names and plain values reads
/// back as the same members: strings, booleans and nulls are written so that
/// `serde_json` reads the same ones, a member is written once under its own
/// name, and such an object is too shallow to meet the reader's depth limit.
/// Of other values (numbers, nested objects) nothing is claimed about reading
/// them back.
#[verifier::external_body]
fn write_json_text(value: &JsonValue) -> (r: String)
    ensures
        r@ == json_text_of(*value),
        plain_object(*value) ==> object_reads_back(r@, *value),
{
    to_serde_value(value).to_string()
}

impl JsonValue {
    /// Reads JSON text; text that is not JSON gives the reader's message.
    pub fn parse(text: &str) -> (r: Result<JsonValue, String>)
        ensures
            match r {
                Ok(value) => json_value_of(text@) == Some(value),
                Err(_) => json_value_of(text@) is None,
            },
    {
        parse_json_text(text)
    }

    /// Reads a stored JSON column: no row gives no value, a row gives the
    /// value its text holds, and text that is not JSON gives the reader's
    /// message.
    pub fn parse_stored(stored: Option<&str>) -> (r: Result<Option<JsonValue>, String>)
        ensures
            match stored {
                None => r == Ok::<Option<JsonValue>, String>(None),
                Some(text) => match json_value_of(text@) {
                    Some(value) => r == Ok::<Option<JsonValue>, String>(Some(value)),
                    None => r is Err,
                },
            },
    {
        match stored {
            None => Ok(None),
            Some(text) => match parse_json_text(text) {
                Ok(value) => Ok(Some(value)),
                Err(message) => Err(message),
            },
        }
    }

    /// The JSON text of this value. An object whose members have distinct
    /// names and plain values reads back from it as the same members.
    pub fn to_text(&self) -> (r: String)
        ensures
            r@ == json_text_of(*self),
            plain_object(*self) ==> object_reads_back(r@, *self),
    {
        write_json_text(self)
    }
}

/// The views of a sequence of strings.
pub open spec fn views_of(strings: Seq<String>) -> Seq<Seq<char>> {
    strings.map_values(|s: String| s@)
}

} // verus!

//! Metadata records: JSON values as `serde_json` holds them.
//!
//! A record is opaque to the verifier. What the rest of the library knows of
//! one is its compact JSON text, and every question asked of a record is
//! answered by `serde_json` and stated here as a function of that text.

use vstd::prelude::*;
use vstd::utf8::encode_utf8;

verus! {

#[verifier::external_type_specification]
#[verifier::external_body]
pub struct ExValue(serde_json::Value);

#[verifier::external_type_specification]
#[verifier::external_body]
pub struct ExJsonError(serde_json::Error);

/// What a JSON value holds, written as its compact text: no white space
/// between tokens, strings escaped, the members of an object in the order
/// in which `serde_json` keeps them.
pub uninterp spec fn json_text(value: serde_json::Value) -> Seq<char>;

/// The compact text of the value that `serde_json::from_slice` reads from
/// `input`, or `None` where it reports an error.
pub uninterp spec fn json_parse(input: Seq<u8>) -> Option<Seq<char>>;

/// The compact text of the member called `key` of the value whose compact
/// text is `text`, as `serde_json::Value::get` finds it: `None` where the
/// value is no object or has no such member.
pub uninterp spec fn json_member(text: Seq<char>, key: Seq<char>) -> Option<Seq<char>>;

/// The characters of the string that the value with compact text `text` is,
/// as `serde_json::Value::as_str` gives them: `None` where it is no string.
pub uninterp spec fn json_string(text: Seq<char>) -> Option<Seq<char>>;

/// The compact texts of the elements of the array that the value with compact
/// text `text` is, as `serde_json::Value::as_array` gives them: `None` where
/// it is no array.
pub uninterp spec fn json_elements(text: Seq<char>) -> Option<Seq<Seq<char>>>;

/// The string held under `key` by the value with compact text `text`.
pub open spec fn json_text_member(text: Seq<char>, key: Seq<char>) -> Option<Seq<char>> {
    match json_member(text, key) {
        Some(member) => json_string(member),
        None => None,
    }
}

/// The elements of the array held under `key` by the value with compact text
/// `text`.
pub open spec fn json_array_member(text: Seq<char>, key: Seq<char>) -> Option<Seq<Seq<char>>> {
    match json_member(text, key) {
        Some(member) => json_elements(member),
        None => None,
    }
}

/// `text` is the compact text of the value that its own bytes are read as:
/// a record with this text, written out and read again, is the same record.
/// A text fails this where it holds a number that is printed with more
/// digits than are read again.
pub open spec fn reads_back(text: Seq<char>) -> bool {
    json_parse(encode_utf8(text)) == Some(text)
}

/// Calls `serde_json::from_slice` for a `Value`. Trusted: the outcome depends
/// on the bytes alone, so it is named by `json_parse`.
#[verifier::external_body]
fn value_from_slice(input: &[u8]) -> (r: Result<serde_json::Value, serde_json::Error>)
    ensures
        match r {
            Ok(value) => json_parse(input@) == Some(json_text(value)),
            Err(_) => json_parse(input@) is None,
        },
{
    serde_json::from_slice::<serde_json::Value>(input)
}

/// Calls `to_string` on a `serde_json::Value`, which writes the compact form.
/// Trusted: the result is the value's text, and the compact form holds no
/// line feed, since the writer emits no white space and escapes every control
/// character inside a string.
#[verifier::external_body]
fn value_to_string(value: &serde_json::Value) -> (r: String)
    ensures
        r@ == json_text(*value),
        !r@.contains('\n'),
{
    value.to_string()
}

/// Calls `serde_json::Value::get` with a string key. Trusted: which member
/// comes back depends on the value and the key alone.
#[verifier::external_body]
fn value_get<'a>(value: &'a serde_json::Value, key: &str) -> (r: Option<&'a serde_json::Value>)
    ensures
        match r {
            Some(member) => json_member(json_text(*value), key@) == Some(json_text(*member)),
            None => json_member(json_text(*value), key@) is None,
        },
{
    value.get(key)
}

/// Calls `serde_json::Value::as_str`. Trusted: the string that comes back
/// depends on the value alone.
#[verifier::external_body]
fn value_as_str<'a>(value: &'a serde_json::Value) -> (r: Option<&'a str>)
    ensures
        match r {
            Some(s) => json_string(json_text(*value)) == Some(s@),
            None => json_string(json_text(*value)) is None,
        },
{
    value.as_str()
}

/// Calls `serde_json::Value::as_array`. Trusted: the elements that come back,
/// and their order, depend on the value alone.
#[verifier::external_body]
fn value_as_array<'a>(value: &'a serde_json::Value) -> (r: Option<&'a Vec<serde_json::Value>>)
    ensures
        match r {
            Some(items) => json_elements(json_text(*value)) == Some(
                items@.map_values(|item: serde_json::Value| json_text(item)),
            ),
            None => json_elements(json_text(*value)) is None,
        },
{
    value.as_array()
}

/// Calls `clone` on a `serde_json::Value`. Trusted: the copy holds what the
/// value holds.
#[verifier::external_body]
fn value_clone(value: &serde_json::Value) -> (r: serde_json::Value)
    ensures
        json_text(r) == json_text(*value),
{
    value.clone()
}

/// One metadata item: an arbitrarily nested JSON value.
#[derive(Debug)]
pub struct Record {
    value: serde_json::Value,
}

impl View for Record {
    type V = Seq<char>;

    /// The record's compact JSON text.
    closed spec fn view(&self) -> Seq<char> {
        json_text(self.value)
    }
}

/// The compact texts of a sequence of records, in order.
pub open spec fn texts(records: Seq<Record>) -> Seq<Seq<char>> {
    records.map_values(|record: Record| record@)
}

impl Record {
    /// Reads one JSON value from `input`; `None` where `input` is no JSON.
    pub fn parse(input: &[u8]) -> (r: Option<Record>)
        ensures
            match r {
                Some(record) => json_parse(input@) == Some(record@),
                None => json_parse(input@) is None,
            },
    {
        match value_from_slice(input) {
            Ok(value) => Some(Record { value }),
            Err(_) => None,
        }
    }

    /// The record as one line of JSON text, without the line end.
    pub fn to_json(&self) -> (r: String)
        ensures
            r@ == self@,
            !r@.contains('\n'),
    {
        value_to_string(&self.value)
    }

    /// Whether the record, written out and read again, is the same record.
    pub fn reads_back(&self) -> (r: bool)
        ensures
            r == reads_back(self@),
    {
        let text = self.to_json();
        match Record::parse(text.as_str().as_bytes()) {
            Some(again) => again.to_json() == text,
            None => false,
        }
    }

    /// The string held under `key`, where the record is an object that has
    /// such a member and the member is a string.
    pub fn text_member(&self, key: &str) -> (r: Option<String>)
        ensures
            match r {
                Some(s) => json_text_member(self@, key@) == Some(s@),
                None => json_text_member(self@, key@) is None,
            },
    {
        match value_get(&self.value, key) {
            Some(member) => match value_as_str(member) {
                Some(s) => Some(s.to_owned()),
                None => None,
            },
            None => None,
        }
    }

    /// The elements of the array held under `key`, each as a record of its
    /// own, where the record is an object that has such a member and the
    /// member is an array.
    pub fn array_member(&self, key: &str) -> (r: Option<Vec<Record>>)
        ensures
            match r {
                Some(items) => json_array_member(self@, key@) == Some(texts(items@)),
                None => json_array_member(self@, key@) is None,
            },
    {
        match value_get(&self.value, key) {
            Some(member) => match value_as_array(member) {
                Some(items) => Some(records_of(items)),
                None => None,
            },
            None => None,
        }
    }
}

/// A record for each of `values`, in their order.
fn records_of(values: &Vec<serde_json::Value>) -> (r: Vec<Record>)
    ensures
        texts(r@) == values@.map_values(|value: serde_json::Value| json_text(value)),
{
    let mut records: Vec<Record> = Vec::new();
    let mut i: usize = 0;
    while i < values.len()
        invariant
            i <= values.len(),
            records@.len() == i,
            forall|k: int| 0 <= k < i ==> (#[trigger] records@[k])@ == json_text(values@[k]),
        decreases values.len() - i,
    {
        records.push(Record { value: value_clone(&values[i]) });
        i += 1;
    }
    records
}

} // verus!

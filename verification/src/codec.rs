//! Reading and writing JSON text.
//!
//! The grammar is `serde_json`'s. What it reads from a text, and what it writes
//! for a document, are named here and left uninterpreted: the contracts of this
//! module say which of its calls is made on which value, and nothing about the
//! characters themselves.

use vstd::prelude::*;
use crate::each_view;
use crate::json::{Json, JsonView, Member};

verus! {

/// `serde_json::Value`, the document type of `serde_json`. It only passes
/// between the calls below.
#[verifier::external_type_specification]
#[verifier::external_body]
pub struct ExValue(serde_json::Value);

/// `serde_json::Error`, what `serde_json::from_str` fails with.
#[verifier::external_type_specification]
#[verifier::external_body]
pub struct ExError(serde_json::Error);

/// The document that `serde_json::from_str` reads from `text` as a
/// `serde_json::Value`, or `None` where it reports an error.
pub uninterp spec fn parsed(text: Seq<char>) -> Option<JsonView>;

/// The text that `serde_json::to_string` writes for `doc`.
pub uninterp spec fn compact_text(doc: JsonView) -> Seq<char>;

/// The text that `serde_json::to_string_pretty` writes for `doc`.
pub uninterp spec fn pretty_text(doc: JsonView) -> Seq<char>;

/// Why a manifest could not be loaded.
#[derive(Debug, PartialEq)]
pub enum ManifestError {
    /// The text is not JSON; the message is the parser's own.
    Syntax(String),
    /// The text is JSON, but its top level is not an array.
    NotAnArray,
}

/// Takes a `serde_json::Value` apart, variant by variant, into a [`Json`].
/// An object's members come in the order in which its map hands them out.
#[verifier::external_body]
fn from_value(value: serde_json::Value) -> Json {
    match value {
        serde_json::Value::Null => Json::Null,
        serde_json::Value::Bool(b) => Json::Bool(b),
        serde_json::Value::Number(n) => Json::Number(n),
        serde_json::Value::String(s) => Json::Text(s),
        serde_json::Value::Array(items) => Json::Array(items.into_iter().map(from_value).collect()),
        serde_json::Value::Object(map) => Json::Object(
            map.into_iter().map(|(name, v)| Member { name, value: from_value(v) }).collect(),
        ),
    }
}

/// Puts a [`Json`] together as a `serde_json::Value`, variant by variant.
/// Members are inserted into the object's map in their order.
#[verifier::external_body]
fn to_value(doc: &Json) -> serde_json::Value {
    match doc {
        Json::Null => serde_json::Value::Null,
        Json::Bool(b) => serde_json::Value::Bool(*b),
        Json::Number(n) => serde_json::Value::Number(n.clone()),
        Json::Text(s) => serde_json::Value::String(s.clone()),
        Json::Array(items) => serde_json::Value::Array(items.iter().map(to_value).collect()),
        Json::Object(members) => serde_json::Value::Object(
            members.iter().map(|m| (m.name.clone(), to_value(&m.value))).collect(),
        ),
    }
}

/// Calls `serde_json::from_str` for a `serde_json::Value`. The result is the
/// one that [`parsed`] names: a document where the call succeeds, the call's
/// error where it fails.
#[verifier::external_body]
fn read_value(text: &str) -> (r: Result<Json, serde_json::Error>)
    ensures
        match r {
            Ok(doc) => parsed(text@) == Some(doc@),
            Err(_) => parsed(text@) is None,
        },
{
    match serde_json::from_str::<serde_json::Value>(text) {
        Ok(value) => Ok(from_value(value)),
        Err(e) => Err(e),
    }
}

/// The message of a `serde_json::Error`, as its `Display` gives it. Nothing is
/// claimed of the wording.
#[verifier::external_body]
fn error_message(error: &serde_json::Error) -> String {
    error.to_string()
}

/// Calls `serde_json::to_string` on the document as a `serde_json::Value`; the
/// text is the one that [`compact_text`] names. A `Value` has string keys only
/// and its `Serialize` reports no error of its own, so the call's error case is
/// never taken.
#[verifier::external_body]
pub(crate) fn write_compact(doc: &Json) -> (text: String)
    ensures
        text@ == compact_text(doc@),
{
    match serde_json::to_string(&to_value(doc)) {
        Ok(text) => text,
        Err(_) => String::new(),
    }
}

/// Calls `serde_json::to_string_pretty` on the document as a
/// `serde_json::Value`; the text is the one that [`pretty_text`] names. As for
/// [`write_compact`], the call's error case is never taken.
#[verifier::external_body]
pub(crate) fn write_pretty(doc: &Json) -> (text: String)
    ensures
        text@ == pretty_text(doc@),
{
    match serde_json::to_string_pretty(&to_value(doc)) {
        Ok(text) => text,
        Err(_) => String::new(),
    }
}

/// Parses one JSON document.
///
/// `None` exactly where the text is not JSON.
pub fn read_document(text: &str) -> (doc: Option<Json>)
    ensures
        match doc {
            Some(d) => parsed(text@) == Some(d@),
            None => parsed(text@) is None,
        },
{
    match read_value(text) {
        Ok(d) => Some(d),
        Err(_) => None,
    }
}

/// The entries of a parsed manifest: the elements of its top-level array.
pub fn manifest_entries(doc: Json) -> (r: Result<Vec<Json>, ManifestError>)
    ensures
        match r {
            Ok(entries) => doc@ == JsonView::Array(each_view(entries@)),
            Err(e) => e == ManifestError::NotAnArray && doc@ !is Array,
        },
{
    match doc {
        Json::Array(entries) => {
            assert(doc@->Array_0 =~= each_view(entries@));
            Ok(entries)
        },
        _ => Err(ManifestError::NotAnArray),
    }
}

/// Loads a manifest from its text: a JSON array with one element per image.
///
/// Fails where the text is not JSON, and where it is JSON of another kind than
/// an array; a manifest that fails yields no entry at all.
pub fn load_manifest(text: &str) -> (r: Result<Vec<Json>, ManifestError>)
    ensures
        match r {
            Ok(entries) => parsed(text@) == Some(JsonView::Array(each_view(entries@))),
            Err(ManifestError::NotAnArray) => parsed(text@) is Some && parsed(text@)->0 !is Array,
            Err(ManifestError::Syntax(_)) => parsed(text@) is None,
        },
{
    match read_value(text) {
        Ok(doc) => manifest_entries(doc),
        Err(e) => Err(ManifestError::Syntax(error_message(&e))),
    }
}

} // verus!

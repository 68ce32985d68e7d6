//! JSON documents, read by `serde_json`, and the walk from a document to one of its members.

use crate::error::PoolWatcherError;
use vstd::prelude::*;

verus! {

/// `serde_json::Value`, a JSON document. Nothing inside it is seen here: what the library
/// knows of a document it learns through the calls below.
#[verifier::external_type_specification]
#[verifier::external_body]
pub struct ExValue(serde_json::Value);

/// `serde_json::Error`, the reason for which a text is no JSON document. It is carried,
/// never looked into.
#[verifier::external_type_specification]
#[verifier::external_body]
pub struct ExJsonError(serde_json::Error);

/// The document that a text holds, where the text is one JSON document.
pub uninterp spec fn json_parse(text: Seq<char>) -> Option<serde_json::Value>;

/// The member of a document under a key, where the document is an object that has the key.
pub uninterp spec fn json_member(doc: serde_json::Value, key: Seq<char>) -> Option<
    serde_json::Value,
>;

/// The text of a document, where the document is a string.
pub uninterp spec fn json_text(doc: serde_json::Value) -> Option<Seq<char>>;

/// The elements of a document, in order, where the document is an array.
pub uninterp spec fn json_items(doc: serde_json::Value) -> Option<Seq<serde_json::Value>>;

/// `serde_json::from_str`, asked for a `Value`. Nothing of it is proved here: the contract
/// takes it that the call succeeds exactly on the texts that hold one document, and that
/// it returns that document.
#[verifier::external_body]
fn from_str(text: &str) -> (r: Result<serde_json::Value, serde_json::Error>)
    ensures
        r is Ok <==> json_parse(text@) is Some,
        r matches Ok(doc) ==> json_parse(text@) == Some(doc),
{
    serde_json::from_str::<serde_json::Value>(text)
}

/// `Value::get` with a string key. Nothing of it is proved here: the contract takes it
/// that the call returns the member under the key where the value is an object that has
/// the key, and nothing otherwise.
#[verifier::external_body]
pub(crate) fn member<'a>(doc: &'a serde_json::Value, key: &str) -> (r: Option<
    &'a serde_json::Value,
>)
    ensures
        r is Some <==> json_member(*doc, key@) is Some,
        r matches Some(m) ==> json_member(*doc, key@) == Some(*m),
{
    doc.get(key)
}

/// `Value::as_str`, with the text copied out. Nothing of it is proved here: the contract
/// takes it that the call returns the text of a string value, and nothing for any other
/// value.
#[verifier::external_body]
pub(crate) fn text(doc: &serde_json::Value) -> (r: Option<String>)
    ensures
        r is Some <==> json_text(*doc) is Some,
        r matches Some(s) ==> json_text(*doc) == Some(s@),
{
    doc.as_str().map(str::to_owned)
}

/// `Value::as_array`, with the elements copied out. Nothing of it is proved here: the
/// contract takes it that the call returns the elements of an array value, in order, and
/// nothing for any other value.
#[verifier::external_body]
pub(crate) fn items(doc: &serde_json::Value) -> (r: Option<Vec<serde_json::Value>>)
    ensures
        r is Some <==> json_items(*doc) is Some,
        r matches Some(v) ==> json_items(*doc) == Some(v@),
{
    doc.as_array().cloned()
}

/// The keys that a path of string slices spells.
pub open spec fn path_keys(path: Seq<&str>) -> Seq<Seq<char>> {
    path.map_values(|key: &str| key@)
}

/// The document reached from `doc` by taking the member under each key of `path` in turn;
/// nothing where a step meets a document that has no member under its key.
pub open spec fn json_at(doc: serde_json::Value, path: Seq<Seq<char>>) -> Option<
    serde_json::Value,
>
    decreases path.len(),
{
    if path.len() == 0 {
        Some(doc)
    } else {
        match json_member(doc, path[0]) {
            Some(inner) => json_at(inner, path.drop_first()),
            None => None,
        }
    }
}

/// Reads a text as one JSON document.
pub fn parse_document(text: &str) -> (r: Result<serde_json::Value, PoolWatcherError>)
    ensures
        match r {
            Ok(doc) => json_parse(text@) == Some(doc),
            Err(e) => json_parse(text@) is None && e is Json,
        },
{
    match from_str(text) {
        Ok(doc) => Ok(doc),
        Err(e) => Err(PoolWatcherError::from(e)),
    }
}

/// Walks from a document down a path of keys.
pub fn descend<'a>(doc: &'a serde_json::Value, path: &[&str]) -> (r: Option<
    &'a serde_json::Value,
>)
    ensures
        match r {
            Some(found) => json_at(*doc, path_keys(path@)) == Some(*found),
            None => json_at(*doc, path_keys(path@)) is None,
        },
{
    let ghost keys = path_keys(path@);
    let mut current: &'a serde_json::Value = doc;
    let mut i: usize = 0;
    proof {
        assert(keys.skip(0) =~= keys);
    }
    while i < path.len()
        invariant
            i <= path@.len(),
            keys == path_keys(path@),
            json_at(*doc, keys) == json_at(*current, keys.skip(i as int)),
        decreases path@.len() - i,
    {
        proof {
            assert(keys.skip(i as int)[0] == path@[i as int]@);
            assert(keys.skip(i as int).drop_first() =~= keys.skip(i + 1));
        }
        match member(current, path[i]) {
            Some(inner) => {
                current = inner;
            },
            None => {
                return None;
            },
        }
        i += 1;
    }
    proof {
        assert(keys.skip(i as int).len() == 0);
    }
    Some(current)
}

} // verus!

//! Reading values out of JSON documents with `serde_json`.
//!
//! Each function parses the document bytes and reads the value at a JSON
//! pointer (RFC 6901; `/a/b` is member `b` of member `a`). What it reads is
//! a function of the bytes and the pointer alone, and the contracts name it.
use vstd::prelude::*;

verus! {

/// The document is JSON.
pub uninterp spec fn json_parses(doc: Seq<u8>) -> bool;

/// The string at `pointer` in the document, if the document is JSON and
/// holds a string there.
pub uninterp spec fn json_text_at(doc: Seq<u8>, pointer: Seq<char>) -> Option<Seq<char>>;

/// The document is JSON and holds an object at `pointer`.
pub uninterp spec fn json_object_at(doc: Seq<u8>, pointer: Seq<char>) -> bool;

/// The length of the value at `pointer` written out again as compact JSON,
/// if the document is JSON and holds a value there.
pub uninterp spec fn json_encoded_len_at(doc: Seq<u8>, pointer: Seq<char>) -> Option<usize>;

/// The number of elements of the array at `pointer`, if the document is
/// JSON and holds an array there.
pub uninterp spec fn json_array_len_at(doc: Seq<u8>, pointer: Seq<char>) -> Option<usize>;

/// The unsigned integer at `pointer` (`Value::as_u64`), if the document is
/// JSON and holds one there.
pub uninterp spec fn json_u64_at(doc: Seq<u8>, pointer: Seq<char>) -> Option<u64>;

/// The boolean at `pointer`, if the document is JSON and holds one there.
pub uninterp spec fn json_bool_at(doc: Seq<u8>, pointer: Seq<char>) -> Option<bool>;

/// The value at `pointer`, if the document is JSON and holds one there.
pub uninterp spec fn json_value_at(doc: Seq<u8>, pointer: Seq<char>) -> Option<serde_json::Value>;

/// The document is JSON and holds some value at `pointer`.
pub uninterp spec fn json_present_at(doc: Seq<u8>, pointer: Seq<char>) -> bool;

pub open spec fn opt_text(o: Option<String>) -> Option<Seq<char>> {
    match o {
        Some(s) => Some(s@),
        None => None,
    }
}

/// `serde_json::from_slice::<serde_json::Value>` succeeds on `doc`.
#[verifier::external_body]
pub(crate) fn json_doc_parses(doc: &[u8]) -> (r: bool)
    ensures
        r == json_parses(doc@),
{
    serde_json::from_slice::<serde_json::Value>(doc).is_ok()
}

/// `serde_json::from_slice`, then `Value::pointer` and `Value::as_str`.
#[verifier::external_body]
pub(crate) fn json_text(doc: &[u8], pointer: &str) -> (r: Option<String>)
    ensures
        opt_text(r) == json_text_at(doc@, pointer@),
{
    let v: serde_json::Value = serde_json::from_slice(doc).ok()?;
    Some(v.pointer(pointer)?.as_str()?.to_owned())
}

/// `serde_json::from_slice`, then `Value::pointer` and `Value::is_object`.
#[verifier::external_body]
pub(crate) fn json_object(doc: &[u8], pointer: &str) -> (r: bool)
    ensures
        r == json_object_at(doc@, pointer@),
{
    match serde_json::from_slice::<serde_json::Value>(doc) {
        Ok(v) => v.pointer(pointer).is_some_and(serde_json::Value::is_object),
        Err(_) => false,
    }
}

/// `serde_json::from_slice`, `Value::pointer`, then the length of
/// `serde_json::to_vec` of that value.
#[verifier::external_body]
pub(crate) fn json_encoded_len(doc: &[u8], pointer: &str) -> (r: Option<usize>)
    ensures
        r == json_encoded_len_at(doc@, pointer@),
        pointer@ == ""@ ==> (r is Some <==> json_parses(doc@)),
{
    let v: serde_json::Value = serde_json::from_slice(doc).ok()?;
    Some(serde_json::to_vec(v.pointer(pointer)?).ok()?.len())
}

/// `serde_json::from_slice`, then a copy of the value at `pointer`, named.
/// There is one exactly where it can be written out again (writing a
/// `Value` out cannot fail, and the empty pointer names the whole document).
#[verifier::external_body]
pub(crate) fn json_value(doc: &[u8], pointer: &str) -> (r: Option<serde_json::Value>)
    ensures
        r == json_value_at(doc@, pointer@),
        r is Some <==> json_encoded_len_at(doc@, pointer@) is Some,
        pointer@ == ""@ ==> (r is Some <==> json_parses(doc@)),
{
    let v: serde_json::Value = serde_json::from_slice(doc).ok()?;
    Some(v.pointer(pointer)?.clone())
}

/// `serde_json::from_slice`, then `Value::pointer` and `Value::as_array`,
/// and the array's length.
#[verifier::external_body]
pub(crate) fn json_array_len(doc: &[u8], pointer: &str) -> (r: Option<usize>)
    ensures
        r == json_array_len_at(doc@, pointer@),
{
    let v: serde_json::Value = serde_json::from_slice(doc).ok()?;
    Some(v.pointer(pointer)?.as_array()?.len())
}

/// `serde_json::from_slice`, then `Value::pointer` and `Value::as_u64`.
#[verifier::external_body]
pub(crate) fn json_u64(doc: &[u8], pointer: &str) -> (r: Option<u64>)
    ensures
        r == json_u64_at(doc@, pointer@),
{
    let v: serde_json::Value = serde_json::from_slice(doc).ok()?;
    v.pointer(pointer)?.as_u64()
}

/// `serde_json::from_slice`, then `Value::pointer` and `Value::as_bool`.
#[verifier::external_body]
pub(crate) fn json_bool(doc: &[u8], pointer: &str) -> (r: Option<bool>)
    ensures
        r == json_bool_at(doc@, pointer@),
{
    let v: serde_json::Value = serde_json::from_slice(doc).ok()?;
    v.pointer(pointer)?.as_bool()
}

/// `serde_json::from_slice`, then whether `Value::pointer` finds a value.
#[verifier::external_body]
pub(crate) fn json_present(doc: &[u8], pointer: &str) -> (r: bool)
    ensures
        r == json_present_at(doc@, pointer@),
{
    match serde_json::from_slice::<serde_json::Value>(doc) {
        Ok(v) => v.pointer(pointer).is_some(),
        Err(_) => false,
    }
}

} // verus!

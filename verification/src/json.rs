//! Reading JSON documents.

use vstd::prelude::*;

#[allow(unused_imports)]
use crate::text::strings;

verus! {

/// The text under `key` in the JSON object that `document` encodes: none where
/// `document` is no JSON, encodes no object, or holds no string there.
pub uninterp spec fn json_text_member(document: Seq<u8>, key: Seq<char>) -> Option<Seq<char>>;

/// Decodes `document` with `serde_json::from_slice` and looks up a string
/// member of the resulting object with `Value::get` and `Value::as_str`.
///
/// The contract claims that the outcome depends on the document and the key
/// alone; which documents decode, and to what, is left to that crate.
#[verifier::external_body]
pub(crate) fn read_text_member(document: &[u8], key: &str) -> (text: Option<String>)
    ensures
        strings::opt_text(text) == json_text_member(document@, key@),
{
    let value: serde_json::Value = serde_json::from_slice(document).ok()?;
    value.get(key).and_then(serde_json::Value::as_str).map(str::to_string)
}

} // verus!

//! The one place the library touches a JSON parser.  The document text is
//! handed to serde_json; what comes back is named, never restated.

use vstd::prelude::*;

verus! {

/// Whether serde_json accepts `body` as a JSON document.
pub uninterp spec fn json_document_ok(body: Seq<char>) -> bool;

/// The string value at JSON-pointer `pointer` of the document `body`
/// parses to: `None` when the document does not parse, the pointer does
/// not resolve, or the value there is not a string.
pub uninterp spec fn json_string_value(body: Seq<char>, pointer: Seq<char>) -> Option<Seq<char>>;

/// What a JSON lookup came back with.
pub enum JsonOutcome {
    /// The pointer resolved to this string value.
    Text(String),
    /// The document parsed, but the pointer found no string there.
    Missing,
    /// The body is not a JSON document.
    Invalid,
}

/// Relies on serde_json: `from_str::<Value>` parses the document,
/// `Value::pointer` walks a `/`-joined key path, and `Value::as_str` reads
/// the leaf as a string.  All three depend on the body and pointer text
/// alone.
#[verifier::external_body]
pub(crate) fn json_lookup(body: &str, pointer: &str) -> (r: JsonOutcome)
    ensures
        r is Invalid <==> !json_document_ok(body@),
        r is Invalid || (r is Text <==> json_string_value(body@, pointer@) is Some),
        r matches JsonOutcome::Text(t) ==> json_string_value(body@, pointer@) matches Some(v)
            && t@ == v,
{
    match serde_json::from_str::<serde_json::Value>(body) {
        Ok(doc) => match doc.pointer(pointer).and_then(|v| v.as_str()) {
            Some(t) => JsonOutcome::Text(t.to_owned()),
            None => JsonOutcome::Missing,
        },
        Err(_) => JsonOutcome::Invalid,
    }
}

} // verus!

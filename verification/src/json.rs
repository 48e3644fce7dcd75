//! Trusted interface to serde_json: the opaque plan document type and the
//! few operations on it that the vault and the connector rely on.

use vstd::prelude::*;

verus! {

/// Lets `serde_json::Value` stand in verified signatures; such a value is
/// opaque to the verifier.
#[verifier::external_type_specification]
#[verifier::external_body]
pub struct ExValue(serde_json::Value);

/// Relies on `serde_json::Value`'s `Clone`: the copy equals its source.
pub assume_specification[ <serde_json::Value as Clone>::clone ](
    v: &serde_json::Value,
) -> (r: serde_json::Value)
    ensures
        r == *v,
;

/// The string a document holds at a JSON-pointer path, when that member
/// exists and is a string.
pub uninterp spec fn pointer_str(v: serde_json::Value, path: Seq<char>) -> Option<Seq<char>>;

/// The plan identifier a document carries at `summary.id`, when that
/// member exists and is a string.
pub open spec fn record_id(v: serde_json::Value) -> Option<Seq<char>> {
    pointer_str(v, "/summary/id"@)
}

/// The JSON serialization of a list of documents.
pub uninterp spec fn plans_to_json(vs: Seq<serde_json::Value>) -> Seq<u8>;

/// The pretty-printed JSON rendering of a document.
pub uninterp spec fn pretty_of(v: serde_json::Value) -> Seq<char>;

/// Relies on `serde_json::Value::pointer` and `Value::as_str`: looks up
/// `path` and hands the member out when it is a string.
#[verifier::external_body]
pub fn pointer_string(v: &serde_json::Value, path: &str) -> (r: Option<String>)
    ensures
        match r {
            Some(s) => pointer_str(*v, path@) == Some(s@),
            None => pointer_str(*v, path@) is None,
        },
{
    match v.pointer(path) {
        Some(node) => match node.as_str() {
            Some(s) => Some(s.to_string()),
            None => None,
        },
        None => None,
    }
}

/// Looks up the plan identifier at `summary.id`.
pub fn extract_id(v: &serde_json::Value) -> (r: Option<String>)
    ensures
        match r {
            Some(s) => record_id(*v) == Some(s@),
            None => record_id(*v) is None,
        },
{
    pointer_string(v, "/summary/id")
}

/// Relies on `serde_json::to_vec`: serializes a list of documents; the
/// result depends on the list alone, and serialization cannot fail on
/// `Value` (its maps have string keys, its numbers are finite).
#[verifier::external_body]
pub fn plans_to_vec(entries: &Vec<serde_json::Value>) -> (r: Option<Vec<u8>>)
    ensures
        r is Some,
        r matches Some(bs) ==> bs@ == plans_to_json(entries@),
{
    match serde_json::to_vec(entries) {
        Ok(bs) => Some(bs),
        Err(_) => None,
    }
}

/// Whether `serde_json::from_slice` accepts these bytes as a list of
/// documents. Acceptance is a function of the bytes alone; among other
/// things the parser refuses nesting beyond its recursion limit, so not
/// every serialized list is accepted back.
pub uninterp spec fn json_list_parses(bytes: Seq<u8>) -> bool;

/// Relies on `serde_json::from_slice`: parsing is a function of the
/// bytes, and when it accepts the serialization of a list of documents it
/// yields exactly that list back.
#[verifier::external_body]
pub fn plans_from_slice(bytes: &[u8]) -> (r: Option<Vec<serde_json::Value>>)
    ensures
        r is Some <==> json_list_parses(bytes@),
        forall|vs: Seq<serde_json::Value>|
            bytes@ == #[trigger] plans_to_json(vs) && json_list_parses(bytes@) ==> r is Some
                && r->Some_0@ == vs,
{
    match serde_json::from_slice::<Vec<serde_json::Value>>(bytes) {
        Ok(vs) => Some(vs),
        Err(_) => None,
    }
}

/// Relies on `serde_json::to_string_pretty`: the rendering depends on the
/// document alone, and it cannot fail on `Value` (its maps have string
/// keys, its numbers are finite).
#[verifier::external_body]
pub fn to_string_pretty(v: &serde_json::Value) -> (r: Option<String>)
    ensures
        r is Some,
        r matches Some(s) ==> s@ == pretty_of(*v),
{
    match serde_json::to_string_pretty(v) {
        Ok(s) => Some(s),
        Err(_) => None,
    }
}

} // verus!

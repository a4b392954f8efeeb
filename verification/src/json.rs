//! JSON as text: the crate moves documents around without looking inside
//! them, and leaves the grammar to `serde_json`.

use vstd::prelude::*;

verus! {

/// Whether `serde_json` accepts the text as one JSON document: the value of
/// `serde_json::from_str::<serde_json::Value>(text).is_ok()`.
pub uninterp spec fn json_well_formed(text: Seq<char>) -> bool;

/// The JSON string literal, quotes and escapes included, that `serde_json`
/// writes for the given characters.
pub uninterp spec fn json_string_literal(s: Seq<char>) -> Seq<char>;

/// Trusted: `serde_json::from_str` at type `serde_json::Value`, asked only
/// whether it succeeds.
#[verifier::external_body]
pub(crate) fn is_json(text: &str) -> (ok: bool)
    ensures
        ok == json_well_formed(text@),
{
    serde_json::from_str::<serde_json::Value>(text).is_ok()
}

/// Trusted: `Display` of `serde_json::Value` on a `Value::String`, which
/// writes the compact JSON literal of the string.
#[verifier::external_body]
pub(crate) fn quote_json(s: &str) -> (literal: String)
    ensures
        literal@ == json_string_literal(s@),
{
    serde_json::Value::String(s.to_owned()).to_string()
}

} // verus!

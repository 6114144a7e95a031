//! The schema validator: whether a document conforms to a JSON schema.
//!
//! The schema is compiled for each check. `jsonschema::Validator` is generic
//! over a trait of its crate, and a value of it cannot be held in a verified
//! struct, so a compiled validator is not kept between checks; the verdict is
//! the same, only the cost of compiling is paid again.

use vstd::prelude::*;

verus! {

/// Whether the JSON text `doc` conforms to the JSON schema whose text is
/// `schema`; false where either text is no JSON or the schema does not compile.
pub uninterp spec fn conforms(schema: Seq<char>, doc: Seq<char>) -> bool;

/// Relies on `jsonschema::validator_for` and `jsonschema::Validator::is_valid`
/// (with `serde_json::from_str` to read both texts): the verdict depends on
/// the two texts alone.
#[verifier::external_body]
pub(crate) fn conforms_to(schema: &str, doc: &str) -> (r: bool)
    ensures
        r == conforms(schema@, doc@),
{
    let (Ok(schema), Ok(doc)) = (
        serde_json::from_str::<serde_json::Value>(schema),
        serde_json::from_str::<serde_json::Value>(doc),
    ) else {
        return false;
    };
    jsonschema::validator_for(&schema).map_or(false, |v| v.is_valid(&doc))
}

/// Whether the text `schema` is a JSON schema that compiles.
pub uninterp spec fn compiles(schema: Seq<char>) -> bool;

/// Relies on `jsonschema::validator_for` (with `serde_json::from_str` to read
/// the text): whether the schema compiles, which depends on its text alone.
#[verifier::external_body]
pub(crate) fn schema_compiles(schema: &str) -> (r: bool)
    ensures
        r == compiles(schema@),
{
    match serde_json::from_str::<serde_json::Value>(schema) {
        Ok(schema) => jsonschema::validator_for(&schema).is_ok(),
        Err(_) => false,
    }
}

} // verus!

//! Reading single members of JSON objects.

use vstd::prelude::*;

verus! {

/// A JSON value, `serde_json::Value`. Nothing of its inside is known but what the items below say.
#[verifier::external_type_specification]
#[verifier::external_body]
pub struct ExValue(serde_json::Value);

/// Why a text is no JSON, `serde_json::Error`.
#[verifier::external_type_specification]
#[verifier::external_body]
pub struct ExError(serde_json::Error);

/// The members of a JSON object: for each name whether its value is a number, and that number where
/// it is an integer of 64 bits without a sign. A value that is no object has no members.
pub uninterp spec fn members(value: serde_json::Value) -> Map<Seq<char>, (bool, Option<u64>)>;

/// The members of the JSON value that a text writes; none where the text is no JSON.
pub uninterp spec fn text_members(text: Seq<char>) -> Option<Map<Seq<char>, (bool, Option<u64>)>>;

/// Calls `serde_json::from_str` for a `serde_json::Value`. Whether the text is JSON, and the members
/// of the value, are functions of the text; which texts are JSON is left unsaid.
#[verifier::external_body]
pub(crate) fn parse_json(text: &str) -> (result: Result<serde_json::Value, serde_json::Error>)
    ensures
        match result {
            Ok(value) => text_members(text@) == Some(members(value)),
            Err(_) => text_members(text@) is None,
        },
{
    serde_json::from_str(text)
}

/// Calls `serde_json::Value::get` with a name, and `is_number` and `as_u64` on the member that it
/// gives: the member of that name, or nothing where there is none.
#[verifier::external_body]
pub(crate) fn member(value: &serde_json::Value, name: &str) -> (found: Option<(bool, Option<u64>)>)
    ensures
        found == if members(*value).contains_key(name@) {
            Some(members(*value)[name@])
        } else {
            None
        },
{
    match value.get(name) {
        Some(member) => Some((member.is_number(), member.as_u64())),
        None => None,
    }
}

} // verus!

//! The few places where the core leans on outside crates: fresh ids, a
//! clock, a random index, and the JSON claim lookup used by the OAuth2
//! userinfo flow.  Each item carries the contract the rest of the crate
//! relies on.

use vstd::prelude::*;

verus! {

/// The string value of the top-level `sub` member of a JSON document, if
/// the document parses and that member is a string.  Parsing is a function
/// of the document text alone.
pub uninterp spec fn sub_claim_of(body: Seq<char>) -> Option<Seq<char>>;

/// Relies on `uuid::Uuid::new_v4` and its `Display` impl: a fresh random
/// UUID, printed in the hyphenated form, which is 36 characters long.
/// Nothing more is promised of a random value.
#[verifier::external_body]
pub fn new_uuid() -> (r: String)
    ensures
        r@.len() == 36,
{
    uuid::Uuid::new_v4().to_string()
}

/// Relies on `rand::Rng::gen_range` on `thread_rng`: a value uniform in
/// `0..bound`; the call panics only on an empty range, which the
/// precondition rules out.
#[verifier::external_body]
pub fn random_index(bound: usize) -> (r: usize)
    requires
        bound > 0,
    ensures
        r < bound,
{
    rand::Rng::gen_range(&mut rand::thread_rng(), 0..bound)
}

/// Relies on `chrono::Utc::now` and `DateTime::timestamp_millis`: the
/// current UTC instant in milliseconds since the epoch.  Nothing is
/// promised of a clock reading.
#[verifier::external_body]
pub fn now_timestamp_millis() -> i64 {
    chrono::Utc::now().timestamp_millis()
}

/// Relies on `serde_json::from_str`, `Value::get` and `Value::as_str`:
/// parses `body` and hands back the string value of its top-level `sub`
/// member, which depends on `body` alone.
#[verifier::external_body]
pub fn extract_sub_claim(body: &str) -> (r: Option<String>)
    ensures
        (r is Some) == (sub_claim_of(body@) is Some),
        r matches Some(s) ==> sub_claim_of(body@) == Some(s@),
{
    match serde_json::from_str::<serde_json::Value>(body) {
        Ok(v) => match v.get("sub") {
            Some(claim) => claim.as_str().map(|s| s.to_string()),
            None => None,
        },
        Err(_) => None,
    }
}

} // verus!

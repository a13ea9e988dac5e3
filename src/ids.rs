//! Identifiers and the clock, both taken from outside.

use vstd::prelude::*;

verus! {

/// Relies on `ulid::Ulid::new` for a fresh identifier (time-ordered, random
/// low bits) and `Ulid::to_string`, which writes its 26 Crockford base-32 digits.
#[verifier::external_body]
pub fn new_ulid() -> (r: String)
    ensures
        r@.len() == 26,
{
    ulid::Ulid::new().to_string()
}

/// Relies on `chrono::Utc::now` and `DateTime::timestamp`: the current time
/// in whole seconds since the Unix epoch. Nothing is promised of its value.
#[verifier::external_body]
pub fn now_seconds() -> (r: i64) {
    chrono::Utc::now().timestamp()
}

} // verus!

//! Fresh identifiers and wall-clock timestamps for newly created
//! records. Both come from outside crates and are inherently
//! non-deterministic; nothing downstream depends on their values.

use vstd::prelude::*;

verus! {

/// Relies on `uuid::Uuid::new_v4` and the hyphenated lower-case form
/// its `Display` implementation produces: a fresh random identifier of
/// exactly 36 ASCII characters. The value itself is random and nothing
/// more is assumed of it.
#[verifier::external_body]
pub fn fresh_id() -> (r: String)
    ensures
        r@.len() == 36,
{
    uuid::Uuid::new_v4().to_string()
}

/// Relies on `chrono::Utc::now` and
/// `chrono::DateTime::timestamp_millis`: the current wall-clock time
/// as milliseconds since the Unix epoch. The value depends on the
/// clock, so nothing is assumed of it.
#[verifier::external_body]
pub fn now_millis() -> i64 {
    chrono::Utc::now().timestamp_millis()
}

} // verus!

//! The wall clock and fresh identifiers.

use vstd::prelude::*;

verus! {

/// The wall clock in seconds since the epoch: chrono's `Utc::now().timestamp()`.
/// Nothing is claimed of the reading; two readings may come in any order.
#[verifier::external_body]
pub(crate) fn now_seconds() -> (t: i64) {
    chrono::Utc::now().timestamp()
}

/// The wall clock in milliseconds since the epoch: chrono's
/// `Utc::now().timestamp_millis()`. Nothing is claimed of the reading.
#[verifier::external_body]
pub(crate) fn now_millis() -> (t: i64) {
    chrono::Utc::now().timestamp_millis()
}

/// A random identifier: uuid's `Uuid::new_v4()`, written by its `Display` in the
/// hyphenated form, which has 36 characters. Nothing else is claimed of it; that two
/// identifiers differ is likely, not certain.
#[verifier::external_body]
pub(crate) fn fresh_id() -> (id: String)
    ensures
        id@.len() == 36,
{
    uuid::Uuid::new_v4().to_string()
}

} // verus!

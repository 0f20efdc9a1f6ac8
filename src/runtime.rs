use vstd::prelude::*;

verus! {

/// A fresh random identifier.
/// Relies on uuid's `Uuid::new_v4` (random) and `Uuid::as_u128`; nothing is
/// promised of the value, so callers check it against identifiers in use.
#[verifier::external_body]
pub(crate) fn new_id() -> (r: u128) {
    uuid::Uuid::new_v4().as_u128()
}

/// The current time in microseconds since the Unix epoch.
/// Relies on chrono's `Utc::now` and `DateTime::timestamp_micros`; nothing is
/// promised of the value.
#[verifier::external_body]
pub(crate) fn now_micros() -> (r: i64) {
    chrono::Utc::now().timestamp_micros()
}

} // verus!

use vstd::prelude::*;

verus! {

/// Relies on `uuid::Uuid::new_v4`, read out with `Uuid::as_u128`: a fresh
/// random id. Nothing is promised of its value.
#[verifier::external_body]
pub(crate) fn new_link_id() -> (r: u128) {
    uuid::Uuid::new_v4().as_u128()
}

/// Relies on `chrono::Utc::now`, read out with `DateTime::timestamp_micros`:
/// the time now, in microseconds since the Unix epoch. Nothing is promised of
/// its value.
#[verifier::external_body]
pub(crate) fn now_micros() -> (r: i64) {
    chrono::Utc::now().timestamp_micros()
}

} // verus!

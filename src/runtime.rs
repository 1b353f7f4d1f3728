//! Values that come from the running process: fresh identifiers and the clock.
use vstd::prelude::*;

use crate::transaction::is_v4_uuid;

verus! {

/// Relies on `uuid::Uuid::new_v4` and `Uuid::as_u128`: a random identifier whose
/// version field (bits 76 to 79) reads 4 and whose variant field (bits 62, 63) reads 2.
#[verifier::external_body]
pub(crate) fn fresh_uuid() -> (r: u128)
    ensures
        is_v4_uuid(r),
{
    uuid::Uuid::new_v4().as_u128()
}

/// Relies on `chrono::Utc::now` and `DateTime::timestamp_millis`: the wall
/// clock, in milliseconds since the Unix epoch. Nothing is known of the value.
/// `Utc::now` panics only when the system clock reads a time before the epoch.
#[verifier::external_body]
pub(crate) fn now_millis() -> (r: i64) {
    chrono::Utc::now().timestamp_millis()
}

} // verus!

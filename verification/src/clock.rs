use vstd::prelude::*;

verus! {

/// Declares `time::OffsetDateTime` so that values of it can be carried through
/// verified code; nothing inside a value is visible to the proofs.
#[verifier::external_type_specification]
#[verifier::external_body]
pub struct ExOffsetDateTime(time::OffsetDateTime);

/// Calls `time::OffsetDateTime::now_utc`.  The result is the wall-clock time at
/// the call, so nothing is promised about it.
#[verifier::external_body]
fn now_utc() -> (now: time::OffsetDateTime) {
    time::OffsetDateTime::now_utc()
}

/// Calls `time::OffsetDateTime::unix_timestamp`.  No clause states which number
/// comes back: the argument is opaque here.
#[verifier::external_body]
fn unix_timestamp(at: &time::OffsetDateTime) -> (seconds: i64) {
    at.unix_timestamp()
}

/// Seconds since the Unix epoch, as the clock reads now.
pub fn now_unix_timestamp() -> (seconds: i64) {
    let now = now_utc();
    unix_timestamp(&now)
}

} // verus!

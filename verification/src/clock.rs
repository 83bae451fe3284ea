use vstd::prelude::*;

verus! {

/// Relies on `chrono::Utc::now` and `chrono::DateTime::timestamp_millis`:
/// the current wall clock, read as milliseconds since the Unix epoch.
/// Nothing is assumed of the value — the wall clock may move backwards
/// between calls, so callers clamp it where monotonicity is needed.
#[verifier::external_body]
pub(crate) fn current_millis() -> i64 {
    chrono::Utc::now().timestamp_millis()
}

} // verus!

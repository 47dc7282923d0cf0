//! Monotonic time, kept opaque: the library carries `Instant`s for its users
//! and asks how long ago they were, which depends on when it asks.
use vstd::prelude::*;

verus! {

/// `std::time::Instant`, carried through as an opaque value.
#[verifier::external_type_specification]
#[verifier::external_body]
pub struct ExInstant(std::time::Instant);

/// `Instant` is `Copy`: its `clone` gives back the same instant.
pub assume_specification[ <std::time::Instant as std::clone::Clone>::clone ](
    t: &std::time::Instant,
) -> (r: std::time::Instant)
    ensures
        r == *t,
;

/// `Instant::now()`: the current monotonic time. Nothing is stated of it.
#[verifier::external_body]
pub(crate) fn instant_now() -> (r: std::time::Instant) {
    std::time::Instant::now()
}

/// `Instant::elapsed().as_secs()`: whole seconds since `t`. It depends on
/// the time of the call, so nothing more is stated of it.
#[verifier::external_body]
pub(crate) fn elapsed_secs(t: &std::time::Instant) -> (r: u64) {
    t.elapsed().as_secs()
}

/// `Instant::elapsed().as_millis()`, cast to `i64` as the session store keeps
/// it. It depends on the time of the call, so nothing more is stated of it.
#[verifier::external_body]
pub(crate) fn elapsed_millis(t: &std::time::Instant) -> (r: i64) {
    t.elapsed().as_millis() as i64
}

/// `chrono::Utc::now().timestamp_millis()`: milliseconds since the Unix epoch
/// now. It depends on the clock, so nothing is stated of it.
#[verifier::external_body]
pub(crate) fn unix_millis() -> (r: i64) {
    chrono::Utc::now().timestamp_millis()
}

} // verus!

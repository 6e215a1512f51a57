//! Fresh identifiers and timestamps.
//!
//! Row identifiers are 128-bit random values rendered as strings, creation
//! times are wall-clock Unix seconds. Both come from outside: nothing is
//! assumed of a drawn value beyond its printed length, and nothing at all
//! of the clock. The store operations take whatever comes back and are
//! verified for every value.

use vstd::prelude::*;

verus! {

/// Relies on `uuid::Uuid::new_v4` and its `Display` form: a freshly drawn
/// random 128-bit identifier, rendered in the 36-character hyphenated
/// form. The value is random, so only the length is stated. If the
/// operating system's randomness source fails, the call aborts the
/// process — an environmental failure no caller can be guarded against.
#[verifier::external_body]
pub(crate) fn random_uuid_string() -> (r: String)
    ensures
        r@.len() == 36,
{
    uuid::Uuid::new_v4().to_string()
}

/// Relies on `std::time::SystemTime::now` and `duration_since`: the wall
/// clock as whole seconds since the Unix epoch, 0 if the clock reads
/// earlier than the epoch. The value depends on the clock, so nothing is
/// stated of it.
#[verifier::external_body]
pub(crate) fn unix_time_seconds() -> u64 {
    match std::time::SystemTime::now().duration_since(std::time::UNIX_EPOCH) {
        Ok(d) => d.as_secs(),
        Err(_) => 0,
    }
}

/// The current wall-clock time in whole Unix seconds: what new rows get as
/// their creation and update time.
pub fn current_timestamp() -> u64 {
    unix_time_seconds()
}

} // verus!

//! Wall-clock time for freshness policies.

use vstd::prelude::*;

verus! {

/// Relies on std::time::SystemTime::now: milliseconds since the Unix
/// epoch.  The value depends on the machine's clock, so nothing is promised
/// of it; every policy that reads it states what holds for any value.
/// Panics if the clock reads before the epoch, which must not be survived.
#[verifier::external_body]
pub fn timestamp_millis() -> (r: u128)
{
    std::time::SystemTime::now()
        .duration_since(std::time::UNIX_EPOCH)
        .expect("clock reads before the Unix epoch")
        .as_millis()
}

} // verus!

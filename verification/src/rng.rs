//! Process-wide cryptographically secure randomness.

use vstd::prelude::*;

verus! {

/// Relies on getrandom::getrandom: fills the buffer from the operating
/// system's CSPRNG; nothing can be promised of the values.  Panics if the
/// system randomness source is unavailable, which must not be survived.
#[verifier::external_body]
pub fn fill_random(n: usize) -> (r: Vec<u8>)
    ensures
        r@.len() == n,
{
    let mut buf = vec![0u8; n];
    getrandom::getrandom(&mut buf).expect("system random source unavailable");
    buf
}

} // verus!

//! Core of an asynchronous, end-to-end encrypted messaging protocol with
//! post-quantum resistance, meant to run over an untrusted public key-value
//! board.  A KEM-based ratchet (`agraphon`) provides forward secrecy and
//! parent-chain acknowledgement; a session layer binds it to authenticated
//! identities; a session manager orchestrates many peers with freshness and
//! lag policies and encrypted at-rest persistence.

pub mod aead;
pub mod agraphon;
pub mod announcement;
pub mod auth;
pub mod cipher;
pub mod clock;
pub mod dsa;
pub mod history;
pub mod kdf;
pub mod kem;
pub mod manager;
pub mod persist;
pub mod ratchet_kdf;
pub mod rng;
pub mod secondary;
pub mod session;
pub mod wire;

use vstd::prelude::*;

verus! {

/// The block size that padded serialization rounds up to.
pub const PADDING_BLOCK_SIZE: usize = 512;

} // verus!

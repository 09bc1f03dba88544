//! The secondary signature scheme and its hash.
//!
//! Alongside ML-DSA, every identity carries a classical Ed25519 keypair, and
//! message seekers are built from a 32-byte hash of ephemeral Ed25519 public
//! keys.  A secondary secret key is its 32-byte seed; the public key and
//! every signature are deterministic functions of it.

use vstd::prelude::*;
use ed25519_dalek::Signer;

verus! {

/// Secondary (Ed25519) secret key size in bytes.
pub const SECONDARY_SECRET_KEY_SIZE: usize = 32;

/// Secondary (Ed25519) public key size in bytes.
pub const SECONDARY_PUBLIC_KEY_SIZE: usize = 32;

/// Secondary (Ed25519) signature size in bytes.
pub const SECONDARY_SIGNATURE_SIZE: usize = 64;

/// Size of the seeker hash in bytes.
pub const HASH_SIZE: usize = 32;

/// The Ed25519 public key derived from a 32-byte secret key.
pub uninterp spec fn sec_pubkey_of(secret: Seq<u8>) -> Seq<u8>;

/// The Ed25519 signature of `msg` under `secret`.  Ed25519 signing is
/// deterministic (RFC 8032).
pub uninterp spec fn sec_sign_of(secret: Seq<u8>, msg: Seq<u8>) -> Seq<u8>;

/// Whether Ed25519 verification accepts `sig` for `msg` under public key
/// `pk`.
pub uninterp spec fn sec_verify_ok(pk: Seq<u8>, msg: Seq<u8>, sig: Seq<u8>) -> bool;

/// The 32-byte BLAKE3 hash of `data`.
pub uninterp spec fn hash32_of(data: Seq<u8>) -> Seq<u8>;

/// Relies on ed25519_dalek::SigningKey::verifying_key: the public key is a
/// function of the 32-byte secret seed.
#[verifier::external_body]
pub fn sec_public_key(secret: &[u8]) -> (r: Vec<u8>)
    requires
        secret@.len() == SECONDARY_SECRET_KEY_SIZE,
    ensures
        r@ == sec_pubkey_of(secret@),
        r@.len() == SECONDARY_PUBLIC_KEY_SIZE,
{
    let seed: [u8; 32] = secret.try_into().expect("seed size is fixed");
    let sk = ed25519_dalek::SigningKey::from_bytes(&seed);
    sk.verifying_key().to_bytes().to_vec()
}

/// Relies on ed25519_dalek::SigningKey::sign: deterministic Ed25519 signing;
/// the produced signature is accepted by verification under the matching
/// public key (RFC 8032 correctness).
#[verifier::external_body]
pub fn sec_sign(secret: &[u8], msg: &[u8]) -> (r: Vec<u8>)
    requires
        secret@.len() == SECONDARY_SECRET_KEY_SIZE,
    ensures
        r@ == sec_sign_of(secret@, msg@),
        r@.len() == SECONDARY_SIGNATURE_SIZE,
        sec_verify_ok(sec_pubkey_of(secret@), msg@, r@),
{
    let seed: [u8; 32] = secret.try_into().expect("seed size is fixed");
    let sk = ed25519_dalek::SigningKey::from_bytes(&seed);
    sk.sign(msg).to_bytes().to_vec()
}

/// Relies on ed25519_dalek::VerifyingKey::verify: deterministic acceptance
/// of a signature for a message and public key.  Malformed key or signature
/// encodings are rejected.
#[verifier::external_body]
pub fn sec_verify(pk: &[u8], msg: &[u8], sig: &[u8]) -> (r: bool)
    ensures
        r == sec_verify_ok(pk@, msg@, sig@),
{
    let Ok(pk_arr) = <&[u8] as TryInto<&[u8; 32]>>::try_into(pk) else {
        return false;
    };
    let Ok(vk) = ed25519_dalek::VerifyingKey::from_bytes(pk_arr) else {
        return false;
    };
    let Ok(sig_arr) = <&[u8] as TryInto<&[u8; 64]>>::try_into(sig) else {
        return false;
    };
    let signature = ed25519_dalek::Signature::from_bytes(sig_arr);
    vk.verify_strict(msg, &signature).is_ok()
}

/// Relies on blake3::hash: the 32-byte hash is a function of the input
/// bytes alone.
#[verifier::external_body]
pub fn hash32(data: &[u8]) -> (r: Vec<u8>)
    ensures
        r@ == hash32_of(data@),
        r@.len() == HASH_SIZE,
{
    blake3::hash(data).as_bytes().to_vec()
}

} // verus!

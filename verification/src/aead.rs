//! Authenticated encryption for at-rest storage: AES-256-SIV.
//!
//! SIV is a deterministic AEAD: the ciphertext is a function of key, nonce,
//! plaintext and associated data, and decryption recomputes the synthetic tag
//! over the recovered plaintext.  The contracts below state exactly that, so
//! a verified caller gets the round trip for free.

use vstd::prelude::*;
use aes_siv::aead::{Aead, KeyInit, Payload};

verus! {

/// AES-256-SIV key size in bytes: two 256-bit keys.
pub const KEY_SIZE: usize = 64;

/// AES-256-SIV nonce size in bytes.
pub const NONCE_SIZE: usize = 16;

/// The length of the authentication tag that SIV prepends.
pub const TAG_SIZE: usize = 16;

/// A key for AES-256-SIV.
pub struct Key {
    bytes: Vec<u8>,
}

impl Key {
    /// The key bytes.
    pub closed spec fn view(&self) -> Seq<u8> {
        self.bytes@
    }

    /// A key holds exactly [`KEY_SIZE`] bytes.
    pub open spec fn wf(&self) -> bool {
        self@.len() == KEY_SIZE
    }

    /// Wraps key bytes.
    pub fn from_bytes(bytes: Vec<u8>) -> (r: Key)
        requires
            bytes@.len() == KEY_SIZE,
        ensures
            r@ == bytes@,
            r.wf(),
    {
        Key { bytes }
    }

    /// The raw bytes of the key.
    pub fn as_bytes(&self) -> (r: &[u8])
        ensures
            r@ == self@,
    {
        self.bytes.as_slice()
    }
}

/// A nonce for AES-256-SIV.
pub struct Nonce {
    bytes: Vec<u8>,
}

impl Nonce {
    /// The nonce bytes.
    pub closed spec fn view(&self) -> Seq<u8> {
        self.bytes@
    }

    /// A nonce holds exactly [`NONCE_SIZE`] bytes.
    pub open spec fn wf(&self) -> bool {
        self@.len() == NONCE_SIZE
    }

    /// Wraps nonce bytes.
    pub fn from_bytes(bytes: Vec<u8>) -> (r: Nonce)
        requires
            bytes@.len() == NONCE_SIZE,
        ensures
            r@ == bytes@,
            r.wf(),
    {
        Nonce { bytes }
    }

    /// The raw bytes of the nonce.
    pub fn as_bytes(&self) -> (r: &[u8])
        ensures
            r@ == self@,
    {
        self.bytes.as_slice()
    }
}

/// The AES-256-SIV ciphertext of `msg` under `key`, `nonce` and associated
/// data `aad`.  SIV is deterministic: this is a function of its arguments.
pub uninterp spec fn siv_enc(key: Seq<u8>, nonce: Seq<u8>, msg: Seq<u8>, aad: Seq<u8>) -> Seq<u8>;

/// Relies on aes_siv::Aes256SivAead::encrypt: deterministic authenticated
/// encryption.  The output is the synthetic 16-byte tag followed by the
/// CTR-encrypted plaintext, so its length is the plaintext's plus
/// [`TAG_SIZE`]; distinct plaintexts give distinct ciphertexts because
/// decryption recovers the plaintext from the output alone.
#[verifier::external_body]
pub fn encrypt(key: &Key, nonce: &Nonce, plaintext: &[u8], aad: &[u8]) -> (r: Vec<u8>)
    requires
        key.wf(),
        nonce.wf(),
    ensures
        r@ == siv_enc(key@, nonce@, plaintext@, aad@),
        r@.len() == plaintext@.len() + TAG_SIZE,
        forall|other: Seq<u8>| other != plaintext@ ==> siv_enc(key@, nonce@, other, aad@) != r@,
{
    let cipher = <aes_siv::Aes256SivAead as KeyInit>::new_from_slice(key.as_bytes())
        .expect("key size is fixed");
    let payload = Payload { msg: plaintext, aad };
    cipher.encrypt(nonce.as_bytes().into(), payload).expect("AES-SIV encryption cannot fail")
}

/// Relies on aes_siv::Aes256SivAead::decrypt: verifies the synthetic tag by
/// recomputing it over the recovered plaintext, so success means the input
/// is exactly the SIV encryption of the returned plaintext — and of no
/// other plaintext, since decryption inverts the body deterministically —
/// and failure means it is the encryption of none.
#[verifier::external_body]
pub fn decrypt(key: &Key, nonce: &Nonce, ciphertext: &[u8], aad: &[u8]) -> (r: Option<Vec<u8>>)
    requires
        key.wf(),
        nonce.wf(),
    ensures
        match r {
            Some(msg) => {
                &&& ciphertext@ == siv_enc(key@, nonce@, msg@, aad@)
                &&& forall|other: Seq<u8>|
                    ciphertext@ == siv_enc(key@, nonce@, other, aad@) ==> other == msg@
            },
            None => forall|msg: Seq<u8>| ciphertext@ != siv_enc(key@, nonce@, msg, aad@),
        },
{
    let cipher = <aes_siv::Aes256SivAead as KeyInit>::new_from_slice(key.as_bytes())
        .expect("key size is fixed");
    let payload = Payload { msg: ciphertext, aad };
    cipher.decrypt(nonce.as_bytes().into(), payload).ok()
}

} // verus!

//! Stream cipher for message bodies: AES-256-CTR.
//!
//! CTR mode XORs the data with a keystream that depends only on the key and
//! nonce, so encryption and decryption are the same operation and the
//! round-trip law is proved here from the XOR algebra alone.

use vstd::prelude::*;
use ctr::cipher::{KeyIvInit, StreamCipher};

verus! {

/// AES-256 key size in bytes.
pub const KEY_SIZE: usize = 32;

/// AES-CTR nonce size in bytes.
pub const NONCE_SIZE: usize = 16;

/// A key for AES-256-CTR.
pub struct Key {
    bytes: Vec<u8>,
}

impl Key {
    /// The key bytes.
    pub closed spec fn view(&self) -> Seq<u8> {
        self.bytes@
    }

    /// A key holds exactly [`KEY_SIZE`] bytes.
    pub open spec fn wf(&self) -> bool {
        self@.len() == KEY_SIZE
    }

    /// Wraps key bytes.
    pub fn from_bytes(bytes: Vec<u8>) -> (r: Key)
        requires
            bytes@.len() == KEY_SIZE,
        ensures
            r@ == bytes@,
            r.wf(),
    {
        Key { bytes }
    }

    /// The raw bytes of the key.
    pub fn as_bytes(&self) -> (r: &[u8])
        ensures
            r@ == self@,
    {
        self.bytes.as_slice()
    }
}

/// A nonce for AES-256-CTR.
pub struct Nonce {
    bytes: Vec<u8>,
}

impl Nonce {
    /// The nonce bytes.
    pub closed spec fn view(&self) -> Seq<u8> {
        self.bytes@
    }

    /// A nonce holds exactly [`NONCE_SIZE`] bytes.
    pub open spec fn wf(&self) -> bool {
        self@.len() == NONCE_SIZE
    }

    /// Wraps nonce bytes.
    pub fn from_bytes(bytes: Vec<u8>) -> (r: Nonce)
        requires
            bytes@.len() == NONCE_SIZE,
        ensures
            r@ == bytes@,
            r.wf(),
    {
        Nonce { bytes }
    }

    /// The raw bytes of the nonce.
    pub fn as_bytes(&self) -> (r: &[u8])
        ensures
            r@ == self@,
    {
        self.bytes.as_slice()
    }
}

/// The CTR keystream of the first `n` bytes under `key` and `nonce`: what
/// AES-256-CTR XORs into the data.  It depends on key, nonce and length
/// alone.
pub uninterp spec fn ctr_keystream(key: Seq<u8>, nonce: Seq<u8>, n: nat) -> Seq<u8>;

/// `a` XORed with `b`, index by index.
pub open spec fn xor_seq(a: Seq<u8>, b: Seq<u8>) -> Seq<u8>
    recommends
        a.len() == b.len(),
{
    Seq::new(a.len(), |i: int| a[i] ^ b[i])
}

/// What CTR application does to a buffer, as a sequence function.
pub open spec fn spec_ctr_apply(key: Seq<u8>, nonce: Seq<u8>, data: Seq<u8>) -> Seq<u8> {
    xor_seq(data, ctr_keystream(key, nonce, data.len()))
}

/// Relies on ctr::Ctr128BE<aes::Aes256>::apply_keystream: XORs the buffer
/// with the keystream determined by the key and nonce.
#[verifier::external_body]
fn ctr_apply(key: &Key, nonce: &Nonce, buffer: &mut Vec<u8>)
    requires
        key.wf(),
        nonce.wf(),
    ensures
        final(buffer)@ == xor_seq(old(buffer)@, ctr_keystream(key@, nonce@, old(buffer)@.len())),
        final(buffer)@ == spec_ctr_apply(key@, nonce@, old(buffer)@),
{
    let mut cipher = <ctr::Ctr128BE<aes::Aes256> as KeyIvInit>::new_from_slices(
        key.as_bytes(),
        nonce.as_bytes(),
    ).expect("key and nonce sizes are fixed");
    cipher.apply_keystream(buffer.as_mut_slice());
}

/// Encrypts the buffer in place with AES-256-CTR.
pub fn encrypt(key: &Key, nonce: &Nonce, buffer: &mut Vec<u8>)
    requires
        key.wf(),
        nonce.wf(),
    ensures
        final(buffer)@ == spec_ctr_apply(key@, nonce@, old(buffer)@),
        final(buffer)@.len() == old(buffer)@.len(),
{
    ctr_apply(key, nonce, buffer);
}

/// Decrypts the buffer in place with AES-256-CTR.  In CTR mode this is the
/// same keystream XOR as encryption.
pub fn decrypt(key: &Key, nonce: &Nonce, buffer: &mut Vec<u8>)
    requires
        key.wf(),
        nonce.wf(),
    ensures
        final(buffer)@ == spec_ctr_apply(key@, nonce@, old(buffer)@),
        final(buffer)@.len() == old(buffer)@.len(),
{
    ctr_apply(key, nonce, buffer);
}

/// Round-trip law of the stream cipher: applying the keystream twice under
/// the same key and nonce gives back the plaintext, for any byte length.
pub proof fn lemma_ctr_roundtrip(key: Seq<u8>, nonce: Seq<u8>, data: Seq<u8>)
    ensures
        spec_ctr_apply(key, nonce, spec_ctr_apply(key, nonce, data)) == data,
{
    let ks = ctr_keystream(key, nonce, data.len());
    let once = spec_ctr_apply(key, nonce, data);
    assert forall|i: int| 0 <= i < data.len() implies spec_ctr_apply(
        key,
        nonce,
        once,
    )[i] == data[i] by {
        let a: u8 = data[i];
        let b: u8 = ks[i];
        assert(((a ^ b) ^ b) == a) by (bit_vector);
    }
    assert(spec_ctr_apply(key, nonce, spec_ctr_apply(key, nonce, data)) =~= data);
}

} // verus!

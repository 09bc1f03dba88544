//! Key encapsulation: ML-KEM-768.
//!
//! The KEM itself is an external collaborator; this module holds its keys as
//! plain byte values, wraps the three operations behind trusted items, and
//! states the KEM correctness law — decapsulating an honestly encapsulated
//! ciphertext with the matching secret key returns the encapsulated shared
//! secret — which the ratchet proofs build on.

use vstd::prelude::*;

verus! {

/// ML-KEM-768 secret key size in bytes.
pub const PRIVATE_KEY_SIZE: usize = 2400;

/// ML-KEM-768 public key size in bytes.
pub const PUBLIC_KEY_SIZE: usize = 1184;

/// ML-KEM-768 ciphertext size in bytes.
pub const CIPHERTEXT_SIZE: usize = 1088;

/// ML-KEM-768 shared secret size in bytes.
pub const SHARED_SECRET_SIZE: usize = 32;

/// Bytes of randomness that key generation consumes.
pub const KEY_GENERATION_RANDOMNESS_SIZE: usize = 64;

/// Bytes of randomness that encapsulation consumes.
pub const ENCAPSULATION_RANDOMNESS_SIZE: usize = 32;

/// An ML-KEM-768 public key, held as its encoded bytes.
pub struct PublicKey {
    bytes: Vec<u8>,
}

/// An ML-KEM-768 secret key, held as its encoded bytes.
pub struct SecretKey {
    bytes: Vec<u8>,
}

/// An ML-KEM-768 ciphertext, held as its encoded bytes.
pub struct Ciphertext {
    bytes: Vec<u8>,
}

/// An ML-KEM-768 shared secret.
pub struct SharedSecret {
    bytes: Vec<u8>,
}

impl PublicKey {
    /// The encoded key bytes.
    pub closed spec fn view(&self) -> Seq<u8> {
        self.bytes@
    }

    /// A public key holds exactly [`PUBLIC_KEY_SIZE`] bytes.
    pub open spec fn wf(&self) -> bool {
        self@.len() == PUBLIC_KEY_SIZE
    }

    /// Wraps encoded public key bytes.
    pub fn from_bytes(bytes: Vec<u8>) -> (r: PublicKey)
        requires
            bytes@.len() == PUBLIC_KEY_SIZE,
        ensures
            r@ == bytes@,
            r.wf(),
    {
        PublicKey { bytes }
    }

    /// The raw bytes of the key.
    pub fn as_bytes(&self) -> (r: &[u8])
        ensures
            r@ == self@,
    {
        self.bytes.as_slice()
    }

    /// A fresh copy of this key.
    pub fn duplicate(&self) -> (r: PublicKey)
        ensures
            r@ == self@,
    {
        PublicKey { bytes: crate::wire::copy_range(self.bytes.as_slice(), 0, self.bytes.len()) }
    }
}

impl SecretKey {
    /// The encoded key bytes.
    pub closed spec fn view(&self) -> Seq<u8> {
        self.bytes@
    }

    /// A secret key holds exactly [`PRIVATE_KEY_SIZE`] bytes.
    pub open spec fn wf(&self) -> bool {
        self@.len() == PRIVATE_KEY_SIZE
    }

    /// Wraps encoded secret key bytes.
    pub fn from_bytes(bytes: Vec<u8>) -> (r: SecretKey)
        requires
            bytes@.len() == PRIVATE_KEY_SIZE,
        ensures
            r@ == bytes@,
            r.wf(),
    {
        SecretKey { bytes }
    }

    /// The raw bytes of the key.
    pub fn as_bytes(&self) -> (r: &[u8])
        ensures
            r@ == self@,
    {
        self.bytes.as_slice()
    }

    /// A fresh copy of this key.
    pub fn duplicate(&self) -> (r: SecretKey)
        ensures
            r@ == self@,
    {
        SecretKey { bytes: crate::wire::copy_range(self.bytes.as_slice(), 0, self.bytes.len()) }
    }
}

impl Ciphertext {
    /// The encoded ciphertext bytes.
    pub closed spec fn view(&self) -> Seq<u8> {
        self.bytes@
    }

    /// A ciphertext holds exactly [`CIPHERTEXT_SIZE`] bytes.
    pub open spec fn wf(&self) -> bool {
        self@.len() == CIPHERTEXT_SIZE
    }

    /// Wraps encoded ciphertext bytes.
    pub fn from_bytes(bytes: Vec<u8>) -> (r: Ciphertext)
        requires
            bytes@.len() == CIPHERTEXT_SIZE,
        ensures
            r@ == bytes@,
            r.wf(),
    {
        Ciphertext { bytes }
    }

    /// The raw bytes of the ciphertext.
    pub fn as_bytes(&self) -> (r: &[u8])
        ensures
            r@ == self@,
    {
        self.bytes.as_slice()
    }
}

impl SharedSecret {
    /// The shared secret bytes.
    pub closed spec fn view(&self) -> Seq<u8> {
        self.bytes@
    }

    /// A shared secret holds exactly [`SHARED_SECRET_SIZE`] bytes.
    pub open spec fn wf(&self) -> bool {
        self@.len() == SHARED_SECRET_SIZE
    }

    /// Wraps shared secret bytes.
    pub fn from_bytes(bytes: Vec<u8>) -> (r: SharedSecret)
        requires
            bytes@.len() == SHARED_SECRET_SIZE,
        ensures
            r@ == bytes@,
            r.wf(),
    {
        SharedSecret { bytes }
    }

    /// The raw bytes of the secret.
    pub fn as_bytes(&self) -> (r: &[u8])
        ensures
            r@ == self@,
    {
        self.bytes.as_slice()
    }
}

/// The secret key that ML-KEM-768 key generation derives from `randomness`.
pub uninterp spec fn kem_keygen_sk(randomness: Seq<u8>) -> Seq<u8>;

/// The public key that ML-KEM-768 key generation derives from `randomness`.
pub uninterp spec fn kem_keygen_pk(randomness: Seq<u8>) -> Seq<u8>;

/// The public key determined by a secret key.  An ML-KEM-768 secret key in
/// encoded form embeds its public key, so this is a function of the bytes.
pub uninterp spec fn kem_pk_of(sk: Seq<u8>) -> Seq<u8>;

/// The ciphertext that ML-KEM-768 encapsulation to `pk` derives from
/// `randomness`.
pub uninterp spec fn kem_encaps_ct(pk: Seq<u8>, randomness: Seq<u8>) -> Seq<u8>;

/// The shared secret that ML-KEM-768 encapsulation to `pk` derives from
/// `randomness`.
pub uninterp spec fn kem_encaps_ss(pk: Seq<u8>, randomness: Seq<u8>) -> Seq<u8>;

/// What ML-KEM-768 decapsulation returns for `sk` and `ct`.  Decapsulation
/// is deterministic and never fails (implicit rejection).
pub uninterp spec fn kem_decaps(sk: Seq<u8>, ct: Seq<u8>) -> Seq<u8>;

/// Whether a secret key is one that key generation produces.  An arbitrary
/// 2400-byte string can hold an inconsistent hashed-key field, for which
/// decapsulation implicitly rejects, so the scheme's correctness is
/// promised only for generated keys.
pub open spec fn spec_kem_generated(sk: Seq<u8>) -> bool {
    exists|randomness: Seq<u8>| sk == kem_keygen_sk(randomness)
}

/// Relies on libcrux_ml_kem::mlkem768::generate_key_pair: derives a key pair
/// from 64 bytes of randomness.
#[verifier::external_body]
pub fn generate_key_pair(randomness: &[u8]) -> (r: (SecretKey, PublicKey))
    requires
        randomness@.len() == KEY_GENERATION_RANDOMNESS_SIZE,
    ensures
        r.0@ == kem_keygen_sk(randomness@),
        r.1@ == kem_keygen_pk(randomness@),
        r.1@ == kem_pk_of(r.0@),
        spec_kem_generated(r.0@),
        r.0.wf(),
        r.1.wf(),
{
    let seed: [u8; 64] = randomness.try_into().expect("seed size is fixed");
    let pair = libcrux_ml_kem::mlkem768::generate_key_pair(seed);
    let (sk, pk) = pair.into_parts();
    (
        SecretKey { bytes: sk.as_slice().to_vec() },
        PublicKey { bytes: pk.as_slice().to_vec() },
    )
}

/// Relies on libcrux_ml_kem::mlkem768::encapsulate: derives a ciphertext and
/// shared secret from the public key and 32 bytes of randomness.
#[verifier::external_body]
pub fn encapsulate(public_key: &PublicKey, randomness: &[u8]) -> (r: (Ciphertext, SharedSecret))
    requires
        public_key.wf(),
        randomness@.len() == ENCAPSULATION_RANDOMNESS_SIZE,
    ensures
        r.0@ == kem_encaps_ct(public_key@, randomness@),
        r.1@ == kem_encaps_ss(public_key@, randomness@),
        r.0.wf(),
        r.1.wf(),
{
    let pk_arr: [u8; 1184] = public_key.bytes.as_slice().try_into().expect("key size is fixed");
    let pk = libcrux_ml_kem::mlkem768::MlKem768PublicKey::from(pk_arr);
    let seed: [u8; 32] = randomness.try_into().expect("seed size is fixed");
    let (ct, ss) = libcrux_ml_kem::mlkem768::encapsulate(&pk, seed);
    (
        Ciphertext { bytes: ct.as_slice().to_vec() },
        SharedSecret { bytes: ss.to_vec() },
    )
}

/// Relies on libcrux_ml_kem::mlkem768::decapsulate: recovers the shared
/// secret; for a ciphertext honestly encapsulated to the matching public key
/// it returns the encapsulated secret (FIPS 203 correctness).
#[verifier::external_body]
pub fn decapsulate(secret_key: &SecretKey, ciphertext: &Ciphertext) -> (r: SharedSecret)
    requires
        secret_key.wf(),
        ciphertext.wf(),
    ensures
        r@ == kem_decaps(secret_key@, ciphertext@),
        r.wf(),
        forall|enc_r: Seq<u8>|
            spec_kem_generated(secret_key@) && ciphertext@ == #[trigger] kem_encaps_ct(
                kem_pk_of(secret_key@),
                enc_r,
            ) ==> r@ == kem_encaps_ss(kem_pk_of(secret_key@), enc_r),
{
    let sk_arr: [u8; 2400] = secret_key.bytes.as_slice().try_into().expect("key size is fixed");
    let sk = libcrux_ml_kem::mlkem768::MlKem768PrivateKey::from(sk_arr);
    let ct_arr: [u8; 1088] = ciphertext.bytes.as_slice().try_into().expect("size is fixed");
    let ct = libcrux_ml_kem::mlkem768::MlKem768Ciphertext::from(ct_arr);
    let ss = libcrux_ml_kem::mlkem768::decapsulate(&sk, &ct);
    SharedSecret { bytes: ss.to_vec() }
}

} // verus!

//! Identity signatures: ML-DSA-65.

use vstd::prelude::*;

verus! {

/// ML-DSA-65 signing key size in bytes.
pub const SIGNING_KEY_SIZE: usize = 4032;

/// ML-DSA-65 verification key size in bytes.
pub const VERIFICATION_KEY_SIZE: usize = 1952;

/// ML-DSA-65 signature size in bytes.
pub const SIGNATURE_SIZE: usize = 3309;

/// Bytes of randomness that key generation consumes.
pub const KEY_GENERATION_RANDOMNESS_SIZE: usize = 32;

/// Bytes of randomness that signing consumes.
pub const SIGNING_RANDOMNESS_SIZE: usize = 32;

/// An ML-DSA-65 verification key, held as its encoded bytes.
pub struct VerificationKey {
    bytes: Vec<u8>,
}

/// An ML-DSA-65 signing key, held as its encoded bytes.
pub struct SigningKey {
    bytes: Vec<u8>,
}

/// An ML-DSA-65 signature, held as its encoded bytes.
pub struct Signature {
    bytes: Vec<u8>,
}

impl VerificationKey {
    /// The encoded key bytes.
    pub closed spec fn view(&self) -> Seq<u8> {
        self.bytes@
    }

    /// A verification key holds exactly [`VERIFICATION_KEY_SIZE`] bytes.
    pub open spec fn wf(&self) -> bool {
        self@.len() == VERIFICATION_KEY_SIZE
    }

    /// Wraps encoded key bytes.
    pub fn from_bytes(bytes: Vec<u8>) -> (r: VerificationKey)
        requires
            bytes@.len() == VERIFICATION_KEY_SIZE,
        ensures
            r@ == bytes@,
            r.wf(),
    {
        VerificationKey { bytes }
    }

    /// The raw bytes of the key.
    pub fn as_bytes(&self) -> (r: &[u8])
        ensures
            r@ == self@,
    {
        self.bytes.as_slice()
    }

    /// A fresh copy of this key.
    pub fn duplicate(&self) -> (r: VerificationKey)
        ensures
            r@ == self@,
    {
        VerificationKey {
            bytes: crate::wire::copy_range(self.bytes.as_slice(), 0, self.bytes.len()),
        }
    }
}

impl SigningKey {
    /// The encoded key bytes.
    pub closed spec fn view(&self) -> Seq<u8> {
        self.bytes@
    }

    /// A signing key holds exactly [`SIGNING_KEY_SIZE`] bytes.
    pub open spec fn wf(&self) -> bool {
        self@.len() == SIGNING_KEY_SIZE
    }

    /// Wraps encoded key bytes.
    pub fn from_bytes(bytes: Vec<u8>) -> (r: SigningKey)
        requires
            bytes@.len() == SIGNING_KEY_SIZE,
        ensures
            r@ == bytes@,
            r.wf(),
    {
        SigningKey { bytes }
    }

    /// The raw bytes of the key.
    pub fn as_bytes(&self) -> (r: &[u8])
        ensures
            r@ == self@,
    {
        self.bytes.as_slice()
    }
}

impl Signature {
    /// The encoded signature bytes.
    pub closed spec fn view(&self) -> Seq<u8> {
        self.bytes@
    }

    /// A signature holds exactly [`SIGNATURE_SIZE`] bytes.
    pub open spec fn wf(&self) -> bool {
        self@.len() == SIGNATURE_SIZE
    }

    /// Wraps encoded signature bytes.
    pub fn from_bytes(bytes: Vec<u8>) -> (r: Signature)
        requires
            bytes@.len() == SIGNATURE_SIZE,
        ensures
            r@ == bytes@,
            r.wf(),
    {
        Signature { bytes }
    }

    /// The raw bytes of the signature.
    pub fn as_bytes(&self) -> (r: &[u8])
        ensures
            r@ == self@,
    {
        self.bytes.as_slice()
    }
}

/// The signing key that ML-DSA-65 key generation derives from `randomness`.
pub uninterp spec fn dsa_keygen_sk(randomness: Seq<u8>) -> Seq<u8>;

/// The verification key that ML-DSA-65 key generation derives from
/// `randomness`.
pub uninterp spec fn dsa_keygen_vk(randomness: Seq<u8>) -> Seq<u8>;

/// The verification key determined by a signing key.  An ML-DSA-65 signing
/// key in encoded form determines its verification key, so this is a
/// function of the bytes.
pub uninterp spec fn dsa_vk_of(sk: Seq<u8>) -> Seq<u8>;

/// The ML-DSA-65 signature of `msg` under `sk`, domain context `ctx` and
/// signing randomness `randomness`.
pub uninterp spec fn dsa_sign_of(sk: Seq<u8>, msg: Seq<u8>, ctx: Seq<u8>, randomness: Seq<u8>) -> Seq<u8>;

/// Whether ML-DSA-65 verification accepts `sig` for `msg` under `vk` and
/// domain context `ctx`.
pub uninterp spec fn dsa_verify_ok(vk: Seq<u8>, msg: Seq<u8>, ctx: Seq<u8>, sig: Seq<u8>) -> bool;

/// Whether a signing key is one that key generation produces.  Signing with
/// an arbitrary 4032-byte string can yield signatures that verify under no
/// key, so the scheme's correctness is promised only for generated keys.
pub open spec fn spec_dsa_generated(sk: Seq<u8>) -> bool {
    exists|randomness: Seq<u8>| sk == dsa_keygen_sk(randomness)
}

/// Relies on libcrux_ml_dsa::ml_dsa_65::generate_key_pair: derives a key
/// pair from 32 bytes of randomness.
#[verifier::external_body]
pub fn generate_key_pair(randomness: &[u8]) -> (r: (SigningKey, VerificationKey))
    requires
        randomness@.len() == KEY_GENERATION_RANDOMNESS_SIZE,
    ensures
        r.0@ == dsa_keygen_sk(randomness@),
        r.1@ == dsa_keygen_vk(randomness@),
        r.1@ == dsa_vk_of(r.0@),
        spec_dsa_generated(r.0@),
        r.0.wf(),
        r.1.wf(),
{
    let seed: [u8; 32] = randomness.try_into().expect("seed size is fixed");
    let pair = libcrux_ml_dsa::ml_dsa_65::generate_key_pair(seed);
    (
        SigningKey { bytes: pair.signing_key.as_ref().to_vec() },
        VerificationKey { bytes: pair.verification_key.as_ref().to_vec() },
    )
}

/// Relies on libcrux_ml_dsa::ml_dsa_65::sign: deterministic in its inputs;
/// a signature it produces is accepted by verification under the matching
/// verification key (FIPS 204 correctness).  Fails if the context is longer
/// than 255 bytes or rejection sampling runs out of attempts.
#[verifier::external_body]
pub fn sign(signing_key: &SigningKey, message: &[u8], context: &[u8], randomness: &[u8]) -> (r:
    Option<Signature>)
    requires
        signing_key.wf(),
        randomness@.len() == SIGNING_RANDOMNESS_SIZE,
    ensures
        match r {
            Some(sig) => {
                &&& sig@ == dsa_sign_of(signing_key@, message@, context@, randomness@)
                &&& sig.wf()
                &&& spec_dsa_generated(signing_key@) ==> dsa_verify_ok(
                    dsa_vk_of(signing_key@),
                    message@,
                    context@,
                    sig@,
                )
            },
            None => true,
        },
{
    let sk_arr: [u8; 4032] = signing_key.bytes.as_slice().try_into().expect("key size is fixed");
    let sk = libcrux_ml_dsa::MLDSASigningKey::new(sk_arr);
    let rand: [u8; 32] = randomness.try_into().expect("seed size is fixed");
    match libcrux_ml_dsa::ml_dsa_65::sign(&sk, message, context, rand) {
        Ok(sig) => Some(Signature { bytes: sig.as_ref().to_vec() }),
        Err(_) => None,
    }
}

/// Relies on libcrux_ml_dsa::ml_dsa_65::verify: deterministic acceptance of
/// a signature for a message, verification key and domain context.
#[verifier::external_body]
pub fn verify(
    verification_key: &VerificationKey,
    message: &[u8],
    context: &[u8],
    signature: &Signature,
) -> (r: bool)
    requires
        verification_key.wf(),
        signature.wf(),
    ensures
        r == dsa_verify_ok(verification_key@, message@, context@, signature@),
{
    let vk_arr: [u8; 1952] = verification_key.bytes.as_slice().try_into().expect(
        "key size is fixed",
    );
    let vk = libcrux_ml_dsa::MLDSAVerificationKey::new(vk_arr);
    let sig_arr: [u8; 3309] = signature.bytes.as_slice().try_into().expect("size is fixed");
    let sig = libcrux_ml_dsa::MLDSASignature::new(sig_arr);
    libcrux_ml_dsa::ml_dsa_65::verify(&vk, message, context, &sig).is_ok()
}

} // verus!

//! Identities: root secrets, key bundles, user ids and the AuthBlob.
//!
//! Every identity is derived deterministically from a passphrase: a
//! password KDF gives a 32-byte root secret, an HKDF fans it out into the
//! seeds of three keypairs (ML-DSA, ML-KEM, secondary), and the user id is
//! an HKDF digest over all public keys.  The `AuthBlob` binds both
//! signatures to (user id, public payload, secret payload), which is what
//! makes single-round sender authentication replay-resistant.

use vstd::prelude::*;
use vstd::string::StringSliceAdditionalSpecFns;
use crate::dsa;
use crate::kem;
use crate::kdf::{Extract, spec_kdf};
use crate::rng::fill_random;
use crate::secondary;

verus! {

/// Size of the user id in bytes.
pub const USER_ID_SIZE: usize = 32;

/// Size of the static root secret in bytes.
pub const STATIC_ROOT_SECRET_SIZE: usize = 32;

/// What Argon2id derives from a password and salt: `n` bytes that are a
/// function of the arguments alone.
pub uninterp spec fn argon2id_of(password: Seq<u8>, salt: Seq<u8>, n: nat) -> Seq<u8>;

/// Relies on argon2::Argon2::hash_password_into with Argon2id, 32 MiB
/// memory, 4 iterations, 1 lane: deterministic password hashing.  The salt
/// must be between 8 bytes and u32::MAX bytes, the password at most
/// u32::MAX bytes, and the output between 4 bytes and u32::MAX bytes.
#[verifier::external_body]
fn argon2id_derive(password: &[u8], salt: &[u8], n: usize) -> (r: Vec<u8>)
    requires
        password@.len() <= u32::MAX,
        8 <= salt@.len() <= u32::MAX,
        4 <= n <= u32::MAX,
    ensures
        r@ == argon2id_of(password@, salt@, n as nat),
        r@.len() == n,
{
    let params = argon2::ParamsBuilder::new()
        .m_cost(32768)
        .t_cost(4)
        .p_cost(1)
        .build()
        .expect("Argon2 parameters are fixed");
    let argon = argon2::Argon2::new(argon2::Algorithm::Argon2id, argon2::Version::V0x13, params);
    let mut out = vec![0u8; n];
    argon.hash_password_into(password, salt, &mut out).expect("Argon2 derivation failed");
    out
}

/// The password KDF salt is a fixed 32-byte ASCII constant.
proof fn lemma_pwd_salt_len()
    ensures
        "auth.pwd.kdf.salt---------------".spec_bytes().len() == 32,
{
    let s = "auth.pwd.kdf.salt---------------";
    reveal_strlit("auth.pwd.kdf.salt---------------");
    assert(vstd::string::is_ascii(s));
    vstd::string::is_ascii_spec_bytes(s);
}

/// The root secret derived from a passphrase.
pub open spec fn spec_root_secret_of(passphrase: Seq<u8>) -> Seq<u8> {
    argon2id_of(
        passphrase,
        "auth.pwd.kdf.salt---------------".spec_bytes(),
        STATIC_ROOT_SECRET_SIZE as nat,
    )
}

/// A unique identifier for a user, derived from their public keys.
#[derive(Debug, PartialEq, Eq)]
pub struct UserId {
    bytes: Vec<u8>,
}

impl UserId {
    /// The id bytes.
    pub closed spec fn view(&self) -> Seq<u8> {
        self.bytes@
    }

    /// A user id holds exactly [`USER_ID_SIZE`] bytes.
    pub open spec fn wf(&self) -> bool {
        self@.len() == USER_ID_SIZE
    }

    /// The id as a byte slice.
    pub fn as_bytes(&self) -> (r: &[u8])
        ensures
            r@ == self@,
    {
        self.bytes.as_slice()
    }

    /// The id as a byte slice.
    pub fn as_ref(&self) -> (r: &[u8])
        ensures
            r@ == self@,
    {
        self.bytes.as_slice()
    }

    /// Wraps id bytes.
    pub fn from_bytes(bytes: Vec<u8>) -> (r: UserId)
        requires
            bytes@.len() == USER_ID_SIZE,
        ensures
            r@ == bytes@,
            r.wf(),
    {
        UserId { bytes }
    }

    /// A fresh copy of this id.
    pub fn duplicate(&self) -> (r: UserId)
        ensures
            r@ == self@,
            self.wf() ==> r.wf(),
    {
        UserId { bytes: crate::wire::copy_range(self.bytes.as_slice(), 0, self.bytes.len()) }
    }

    /// Whether two ids name the same peer.
    pub fn same_as(&self, other: &UserId) -> (r: bool)
        ensures
            r == (self@ == other@),
    {
        crate::wire::eq_bytes(self.bytes.as_slice(), other.bytes.as_slice())
    }
}

/// A root secret from which all of a user's keys are derived.
pub struct StaticRootSecret {
    bytes: Vec<u8>,
}

impl StaticRootSecret {
    /// The secret bytes.
    pub closed spec fn view(&self) -> Seq<u8> {
        self.bytes@
    }

    /// A root secret holds exactly [`STATIC_ROOT_SECRET_SIZE`] bytes.
    pub open spec fn wf(&self) -> bool {
        self@.len() == STATIC_ROOT_SECRET_SIZE
    }

    /// The secret as a byte slice.
    pub fn as_slice(&self) -> (r: &[u8])
        ensures
            r@ == self@,
    {
        self.bytes.as_slice()
    }

    /// Derives the root secret from a passphrase with the password KDF.
    /// The derivation is deterministic: the same passphrase always gives
    /// the same secret.
    pub fn from_passphrase(passphrase: &[u8]) -> (r: StaticRootSecret)
        requires
            passphrase@.len() <= u32::MAX,
        ensures
            r@ == spec_root_secret_of(passphrase@),
            r.wf(),
    {
        proof {
            lemma_pwd_salt_len();
        }
        let bytes = argon2id_derive(
            passphrase,
            "auth.pwd.kdf.salt---------------".as_bytes(),
            STATIC_ROOT_SECRET_SIZE,
        );
        StaticRootSecret { bytes }
    }

    /// Wraps root secret bytes.
    pub fn from_bytes(bytes: Vec<u8>) -> (r: StaticRootSecret)
        requires
            bytes@.len() == STATIC_ROOT_SECRET_SIZE,
        ensures
            r@ == bytes@,
            r.wf(),
    {
        StaticRootSecret { bytes }
    }
}

/// All public keys of a user: ML-DSA verification key, ML-KEM public key,
/// and the secondary signature public key.
pub struct UserPublicKeys {
    /// ML-DSA-65 verification key.
    pub dsa_verification_key: dsa::VerificationKey,
    /// ML-KEM-768 public key.
    pub kem_public_key: kem::PublicKey,
    /// Secondary signature public key.
    pub secondary_public_key: Vec<u8>,
}

/// All secret keys of a user, matching [`UserPublicKeys`].
pub struct UserSecretKeys {
    /// ML-DSA-65 signing key.
    pub dsa_signing_key: dsa::SigningKey,
    /// ML-KEM-768 secret key.
    pub kem_secret_key: kem::SecretKey,
    /// Secondary signature secret key.
    pub secondary_secret_key: Vec<u8>,
}

/// The user id determined by a bundle of public keys.
pub open spec fn spec_user_id(dsa_vk: Seq<u8>, kem_pk: Seq<u8>, sec_pk: Seq<u8>) -> Seq<u8> {
    spec_kdf(
        "auth.id.kdf.salt----------------".spec_bytes(),
        seq![dsa_vk, kem_pk, sec_pk],
        "auth.id.kdf.id".spec_bytes(),
        USER_ID_SIZE as nat,
    )
}

impl UserPublicKeys {
    /// Every key has its scheme's size.
    pub open spec fn wf(&self) -> bool {
        &&& self.dsa_verification_key.wf()
        &&& self.kem_public_key.wf()
        &&& self.secondary_public_key@.len() == secondary::SECONDARY_PUBLIC_KEY_SIZE
    }

    /// The user id of this bundle, as a spec value.
    pub open spec fn spec_id(&self) -> Seq<u8> {
        spec_user_id(self.dsa_verification_key@, self.kem_public_key@, self.secondary_public_key@)
    }

    /// Derives the unique user id of this bundle: an HKDF digest over all
    /// public keys in fixed order.  Same keys always give the same id.
    pub fn derive_id(&self) -> (r: UserId)
        ensures
            r@ == self.spec_id(),
            r.wf(),
    {
        let mut ex = Extract::new("auth.id.kdf.salt----------------".as_bytes());
        ex.input_item(self.dsa_verification_key.as_bytes());
        ex.input_item(self.kem_public_key.as_bytes());
        ex.input_item(self.secondary_public_key.as_slice());
        let expand = ex.finalize();
        let bytes = expand.expand("auth.id.kdf.id".as_bytes(), USER_ID_SIZE);
        proof {
            crate::kdf::lemma_kdf_ikm3(
                self.dsa_verification_key@,
                self.kem_public_key@,
                self.secondary_public_key@,
            );
            let items = seq![
                self.dsa_verification_key@,
                self.kem_public_key@,
                self.secondary_public_key@,
            ];
            assert(expand.ikm() =~= crate::kdf::spec_kdf_ikm(items));
        }
        UserId { bytes }
    }

    /// A fresh copy of this bundle.
    pub fn duplicate(&self) -> (r: UserPublicKeys)
        ensures
            r.dsa_verification_key@ == self.dsa_verification_key@,
            r.kem_public_key@ == self.kem_public_key@,
            r.secondary_public_key@ == self.secondary_public_key@,
            self.wf() ==> r.wf(),
    {
        UserPublicKeys {
            dsa_verification_key: self.dsa_verification_key.duplicate(),
            kem_public_key: self.kem_public_key.duplicate(),
            secondary_public_key: crate::wire::copy_range(
                self.secondary_public_key.as_slice(),
                0,
                self.secondary_public_key.len(),
            ),
        }
    }
}

/// The user id is a pure function of the public keys: two bundles holding
/// the same key bytes have the same id, whatever else differs between the
/// values that hold them.
pub proof fn lemma_user_id_pure(a: &UserPublicKeys, b: &UserPublicKeys)
    requires
        a.dsa_verification_key@ == b.dsa_verification_key@,
        a.kem_public_key@ == b.kem_public_key@,
        a.secondary_public_key@ == b.secondary_public_key@,
    ensures
        a.spec_id() == b.spec_id(),
{
}

/// Whether a secret key bundle is the counterpart of a public key bundle:
/// each public key is the one its secret key determines.
pub open spec fn spec_keys_match(pks: &UserPublicKeys, sks: &UserSecretKeys) -> bool {
    &&& pks.dsa_verification_key@ == dsa::dsa_vk_of(sks.dsa_signing_key@)
    &&& pks.kem_public_key@ == kem::kem_pk_of(sks.kem_secret_key@)
    &&& pks.secondary_public_key@ == secondary::sec_pubkey_of(sks.secondary_secret_key@)
}

/// Derives the full key bundle of a user from a root secret.  All seeds
/// come from one labeled HKDF extraction over the root secret, so the
/// derivation is deterministic across runs.
pub fn derive_keys_from_static_root_secret(static_root_secret: &StaticRootSecret) -> (r: (
    UserPublicKeys,
    UserSecretKeys,
))
    ensures
        spec_keys_match(&r.0, &r.1),
        dsa::spec_dsa_generated(r.1.dsa_signing_key@),
        kem::spec_kem_generated(r.1.kem_secret_key@),
        r.0.wf(),
        r.1.dsa_signing_key.wf(),
        r.1.kem_secret_key.wf(),
        r.1.secondary_secret_key@.len() == secondary::SECONDARY_SECRET_KEY_SIZE,
        ({
            let items = seq![static_root_secret@];
            let salt = "auth.keypairs.kdf.salt----------".spec_bytes();
            &&& r.1.dsa_signing_key@ == dsa::dsa_keygen_sk(
                spec_kdf(
                    salt,
                    items,
                    "auth.keypairs.kdf.dsa_randomness".spec_bytes(),
                    dsa::KEY_GENERATION_RANDOMNESS_SIZE as nat,
                ),
            )
            &&& r.1.kem_secret_key@ == kem::kem_keygen_sk(
                spec_kdf(
                    salt,
                    items,
                    "auth.keypairs.kdf.kem_randomness".spec_bytes(),
                    kem::KEY_GENERATION_RANDOMNESS_SIZE as nat,
                ),
            )
            &&& r.1.secondary_secret_key@ == spec_kdf(
                salt,
                items,
                "auth.keypairs.kdf.secondary_seed".spec_bytes(),
                secondary::SECONDARY_SECRET_KEY_SIZE as nat,
            )
        }),
{
    let mut ex = Extract::new("auth.keypairs.kdf.salt----------".as_bytes());
    ex.input_item(static_root_secret.as_slice());
    let expand = ex.finalize();
    proof {
        crate::kdf::lemma_kdf_ikm1(static_root_secret@);
        assert(expand.ikm() =~= crate::kdf::spec_kdf_ikm(seq![static_root_secret@]));
    }
    let dsa_randomness = expand.expand(
        "auth.keypairs.kdf.dsa_randomness".as_bytes(),
        dsa::KEY_GENERATION_RANDOMNESS_SIZE,
    );
    let kem_randomness = expand.expand(
        "auth.keypairs.kdf.kem_randomness".as_bytes(),
        kem::KEY_GENERATION_RANDOMNESS_SIZE,
    );
    let secondary_secret_key = expand.expand(
        "auth.keypairs.kdf.secondary_seed".as_bytes(),
        secondary::SECONDARY_SECRET_KEY_SIZE,
    );
    let (dsa_signing_key, dsa_verification_key) = dsa::generate_key_pair(
        dsa_randomness.as_slice(),
    );
    let (kem_secret_key, kem_public_key) = kem::generate_key_pair(kem_randomness.as_slice());
    let secondary_public_key = secondary::sec_public_key(secondary_secret_key.as_slice());
    (
        UserPublicKeys { dsa_verification_key, kem_public_key, secondary_public_key },
        UserSecretKeys { dsa_signing_key, kem_secret_key, secondary_secret_key },
    )
}

/// The 32-byte message that the ML-DSA signature of an AuthBlob signs.
pub open spec fn spec_authblob_dsa_msg(user_id: Seq<u8>, payload: Seq<u8>, secret: Seq<u8>) -> Seq<
    u8,
> {
    spec_kdf(
        "auth.auth_blob.kdf.salt---------".spec_bytes(),
        seq![user_id, payload, secret],
        "auth.auth_blob.kdf.signature_dsa_message".spec_bytes(),
        32,
    )
}

/// The 32-byte message that the secondary signature of an AuthBlob signs.
pub open spec fn spec_authblob_sec_msg(user_id: Seq<u8>, payload: Seq<u8>, secret: Seq<u8>) -> Seq<
    u8,
> {
    spec_kdf(
        "auth.auth_blob.kdf.salt---------".spec_bytes(),
        seq![user_id, payload, secret],
        "auth.auth_blob.kdf.signature_secondary_message".spec_bytes(),
        32,
    )
}

/// Whether an AuthBlob with the given parts passes verification against
/// `secret`: both signatures accept the messages derived from the id of the
/// blob's own public keys, its public payload and `secret`.
pub open spec fn spec_authblob_accepts(
    dsa_vk: Seq<u8>,
    kem_pk: Seq<u8>,
    sec_pk: Seq<u8>,
    payload: Seq<u8>,
    sig_dsa: Seq<u8>,
    sig_sec: Seq<u8>,
    secret: Seq<u8>,
) -> bool {
    let user_id = spec_user_id(dsa_vk, kem_pk, sec_pk);
    &&& dsa::dsa_verify_ok(
        dsa_vk,
        spec_authblob_dsa_msg(user_id, payload, secret),
        "auth.auth_blob.sign.signature_dsa_message".spec_bytes(),
        sig_dsa,
    )
    &&& secondary::sec_verify_ok(sec_pk, spec_authblob_sec_msg(user_id, payload, secret), sig_sec)
}

/// An authentication blob that proves sender identity in a single round:
/// the sender's public keys, a public payload, and two signatures bound to
/// (user id, public payload, secret payload).  The secret payload is not
/// stored; it must be re-supplied at verification time, which is what makes
/// a blob unusable outside the announcement it was built for.
pub struct AuthBlob {
    /// The sender's public keys.
    pub public_keys: UserPublicKeys,
    /// Public information visible to all parties.
    pub public_payload: Vec<u8>,
    /// ML-DSA signature over the derived signing material.
    pub signature_dsa: dsa::Signature,
    /// Secondary signature over the derived signing material.
    pub signature_secondary: Vec<u8>,
}

impl AuthBlob {
    /// Structural soundness of the parts.
    pub open spec fn wf(&self) -> bool {
        &&& self.public_keys.wf()
        &&& self.signature_dsa.wf()
        &&& self.signature_secondary@.len() == secondary::SECONDARY_SIGNATURE_SIZE
    }

    /// Whether this blob passes verification against `secret`.
    pub open spec fn spec_accepts(&self, secret: Seq<u8>) -> bool {
        spec_authblob_accepts(
            self.public_keys.dsa_verification_key@,
            self.public_keys.kem_public_key@,
            self.public_keys.secondary_public_key@,
            self.public_payload@,
            self.signature_dsa@,
            self.signature_secondary@,
            secret,
        )
    }

    /// Derives the two 32-byte signing messages from the user id and the
    /// payloads.
    fn derive_signing_material(user_id: &UserId, public_payload: &[u8], secret_payload: &[u8]) -> (r:
        (Vec<u8>, Vec<u8>))
        ensures
            r.0@ == spec_authblob_dsa_msg(user_id@, public_payload@, secret_payload@),
            r.1@ == spec_authblob_sec_msg(user_id@, public_payload@, secret_payload@),
    {
        let mut ex = Extract::new("auth.auth_blob.kdf.salt---------".as_bytes());
        ex.input_item(user_id.as_bytes());
        ex.input_item(public_payload);
        ex.input_item(secret_payload);
        let expand = ex.finalize();
        proof {
            crate::kdf::lemma_kdf_ikm3(user_id@, public_payload@, secret_payload@);
            let items = seq![user_id@, public_payload@, secret_payload@];
            assert(expand.ikm() =~= crate::kdf::spec_kdf_ikm(items));
        }
        let dsa_msg = expand.expand("auth.auth_blob.kdf.signature_dsa_message".as_bytes(), 32);
        let sec_msg = expand.expand(
            "auth.auth_blob.kdf.signature_secondary_message".as_bytes(),
            32,
        );
        (dsa_msg, sec_msg)
    }

    /// Builds an AuthBlob: derives the user id of `public_keys`, the two
    /// signing messages bound to it, the payload and the secret, and signs
    /// them with both schemes.  Fails only if ML-DSA signing fails.  A blob
    /// built from a matching key bundle verifies against the same secret.
    pub fn new(
        public_keys: UserPublicKeys,
        secret_keys: &UserSecretKeys,
        public_payload: Vec<u8>,
        secret_payload: &[u8],
    ) -> (r: Option<AuthBlob>)
        requires
            public_keys.wf(),
            secret_keys.dsa_signing_key.wf(),
            secret_keys.secondary_secret_key@.len() == secondary::SECONDARY_SECRET_KEY_SIZE,
        ensures
            match r {
                Some(blob) => {
                    &&& blob.wf()
                    &&& blob.public_keys.dsa_verification_key@
                        == public_keys.dsa_verification_key@
                    &&& blob.public_keys.kem_public_key@ == public_keys.kem_public_key@
                    &&& blob.public_keys.secondary_public_key@
                        == public_keys.secondary_public_key@
                    &&& blob.public_payload@ == public_payload@
                    &&& (spec_keys_match(&public_keys, secret_keys) && dsa::spec_dsa_generated(
                        secret_keys.dsa_signing_key@,
                    )) ==> blob.spec_accepts(secret_payload@)
                },
                None => true,
            },
    {
        let user_id = public_keys.derive_id();
        let (dsa_msg, sec_msg) = Self::derive_signing_material(
            &user_id,
            public_payload.as_slice(),
            secret_payload,
        );
        let sign_randomness = fill_random(dsa::SIGNING_RANDOMNESS_SIZE);
        let signature_dsa = match dsa::sign(
            &secret_keys.dsa_signing_key,
            dsa_msg.as_slice(),
            "auth.auth_blob.sign.signature_dsa_message".as_bytes(),
            sign_randomness.as_slice(),
        ) {
            Some(sig) => sig,
            None => {
                return None;
            },
        };
        let signature_secondary = secondary::sec_sign(
            secret_keys.secondary_secret_key.as_slice(),
            sec_msg.as_slice(),
        );
        Some(AuthBlob { public_keys, public_payload, signature_dsa, signature_secondary })
    }

    /// Verifies the blob against a secret payload: recomputes the user id
    /// and the signing messages and checks both signatures.  Returns true
    /// exactly when the blob accepts this secret.
    pub fn verify(&self, secret_payload: &[u8]) -> (r: bool)
        requires
            self.wf(),
        ensures
            r == self.spec_accepts(secret_payload@),
    {
        let user_id = self.public_keys.derive_id();
        let (dsa_msg, sec_msg) = Self::derive_signing_material(
            &user_id,
            self.public_payload.as_slice(),
            secret_payload,
        );
        let dsa_ok = dsa::verify(
            &self.public_keys.dsa_verification_key,
            dsa_msg.as_slice(),
            "auth.auth_blob.sign.signature_dsa_message".as_bytes(),
            &self.signature_dsa,
        );
        if !dsa_ok {
            return false;
        }
        secondary::sec_verify(
            self.public_keys.secondary_public_key.as_slice(),
            sec_msg.as_slice(),
            self.signature_secondary.as_slice(),
        )
    }

    /// The sender's public keys.
    pub fn public_keys(&self) -> (r: &UserPublicKeys)
        ensures
            r == &self.public_keys,
    {
        &self.public_keys
    }

    /// The public payload.
    pub fn public_payload(&self) -> (r: &[u8])
        ensures
            r@ == self.public_payload@,
    {
        self.public_payload.as_slice()
    }
}

} // verus!

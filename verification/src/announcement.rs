//! The handshake announcement: the one-shot blob that bootstraps a session.
//!
//! On the wire an announcement is `randomness[32] ‖ kem_ct ‖ body`, where
//! `body` is the stream-cipher encryption of `next_pk ‖ auth_payload` under
//! keys derived by the announcement root KDF.  There is no AEAD at this
//! layer: authenticity is enforced above, by verifying the AuthBlob carried
//! in `auth_payload` against the announcement's derived authentication key.

use vstd::prelude::*;
use crate::cipher;
use crate::kem;
use crate::ratchet_kdf::{
    AnnouncementAuthKdf, AnnouncementRootKdf, MASTER_KEY_SIZE, MessageIntegrityKdf, spec_ann_root_id,
    spec_ann_root_key, spec_ann_root_nonce, spec_ann_root_pre, spec_ann_root_seed, spec_auth_key,
    spec_integrity_mk, spec_integrity_seeker,
};
use crate::rng::fill_random;
use crate::wire::{copy_range, push_bytes};

verus! {

/// Size of the announcement randomness prefix.
pub const ANNOUNCEMENT_RANDOMNESS_SIZE: usize = 32;

/// The shortest well-formed announcement: randomness, KEM ciphertext, and a
/// body that holds at least the next public key.
pub const ANNOUNCEMENT_MIN_SIZE: usize = 2304;

/// The randomness prefix of announcement bytes.
pub open spec fn spec_ann_rand(bytes: Seq<u8>) -> Seq<u8> {
    bytes.subrange(0, ANNOUNCEMENT_RANDOMNESS_SIZE as int)
}

/// The KEM ciphertext field of announcement bytes.
pub open spec fn spec_ann_ct(bytes: Seq<u8>) -> Seq<u8> {
    bytes.subrange(
        ANNOUNCEMENT_RANDOMNESS_SIZE as int,
        ANNOUNCEMENT_RANDOMNESS_SIZE + kem::CIPHERTEXT_SIZE,
    )
}

/// The encrypted body of announcement bytes.
pub open spec fn spec_ann_body(bytes: Seq<u8>) -> Seq<u8> {
    bytes.subrange(ANNOUNCEMENT_RANDOMNESS_SIZE + kem::CIPHERTEXT_SIZE, bytes.len() as int)
}

/// The decrypted body of an announcement, as the recipient holding `sk`
/// recovers it.
pub open spec fn spec_ann_plain(bytes: Seq<u8>, recipient_pk: Seq<u8>, sk: Seq<u8>) -> Seq<u8> {
    let rand = spec_ann_rand(bytes);
    let ct = spec_ann_ct(bytes);
    let ss = kem::kem_decaps(sk, ct);
    cipher::spec_ctr_apply(
        spec_ann_root_key(rand, ss, ct, recipient_pk),
        spec_ann_root_nonce(rand, ss, ct, recipient_pk),
        spec_ann_body(bytes),
    )
}

/// Intermediate state after decrypting a received announcement: the caller
/// inspects the authentication payload and key before committing.
pub struct IncomingAnnouncementPrecursor {
    /// The initiator's next public key, read from the decrypted body.
    pub pk_next: kem::PublicKey,
    /// The authentication payload, read from the decrypted body.
    pub auth_payload: Vec<u8>,
    /// The derived authentication key binding the payload to this
    /// announcement.
    pub auth_key: Vec<u8>,
    /// Seed of the session's initial ratchet values.
    pub integrity_seed: Vec<u8>,
    /// Handshake id for the role tiebreak.
    pub id: Vec<u8>,
}

impl IncomingAnnouncementPrecursor {
    /// Structural soundness of the parts.
    pub open spec fn wf(&self) -> bool {
        &&& self.pk_next.wf()
        &&& self.auth_key@.len() == MASTER_KEY_SIZE
        &&& self.integrity_seed@.len() == MASTER_KEY_SIZE
        &&& self.id@.len() == MASTER_KEY_SIZE
    }

    /// Whether this precursor is exactly what parsing `bytes` with the
    /// recipient keys yields.
    pub open spec fn spec_parsed_from(&self, bytes: Seq<u8>, recipient_pk: Seq<u8>, sk: Seq<u8>)
        -> bool {
        let rand = spec_ann_rand(bytes);
        let ct = spec_ann_ct(bytes);
        let ss = kem::kem_decaps(sk, ct);
        let plain = spec_ann_plain(bytes, recipient_pk, sk);
        &&& self.pk_next@ == plain.subrange(0, kem::PUBLIC_KEY_SIZE as int)
        &&& self.auth_payload@ == plain.subrange(kem::PUBLIC_KEY_SIZE as int, plain.len() as int)
        &&& self.auth_key@ == spec_auth_key(
            spec_ann_root_pre(rand, ss, ct, recipient_pk),
            plain.subrange(0, kem::PUBLIC_KEY_SIZE as int),
        )
        &&& self.integrity_seed@ == spec_ann_root_seed(rand, ss, ct, recipient_pk)
        &&& self.id@ == spec_ann_root_id(rand, ss, ct, recipient_pk)
    }

    /// Decrypts and parses a received announcement with our static keys.
    /// Fails exactly when the bytes are too short to hold the randomness,
    /// the KEM ciphertext and a next public key.  When the embedded
    /// ciphertext was honestly encapsulated to our public key, the
    /// decapsulated secret is the encapsulated one, so the sender's and
    /// receiver's derived keys agree.
    pub fn try_from_incoming_announcement_bytes(
        announcement_bytes: &[u8],
        our_pk: &kem::PublicKey,
        our_sk: &kem::SecretKey,
    ) -> (r: Option<IncomingAnnouncementPrecursor>)
        requires
            our_pk.wf(),
            our_sk.wf(),
        ensures
            (r is Some) == (announcement_bytes@.len() >= ANNOUNCEMENT_MIN_SIZE),
            match r {
                Some(p) => {
                    &&& p.wf()
                    &&& p.spec_parsed_from(announcement_bytes@, our_pk@, our_sk@)
                },
                None => true,
            },
            forall|enc_r: Seq<u8>|
                kem::spec_kem_generated(our_sk@) && spec_ann_ct(announcement_bytes@)
                    == #[trigger] kem::kem_encaps_ct(kem::kem_pk_of(our_sk@), enc_r)
                    && announcement_bytes@.len() >= ANNOUNCEMENT_MIN_SIZE ==> kem::kem_decaps(
                    our_sk@,
                    spec_ann_ct(announcement_bytes@),
                ) == kem::kem_encaps_ss(kem::kem_pk_of(our_sk@), enc_r),
    {
        let total: usize = announcement_bytes.len();
        if total < ANNOUNCEMENT_MIN_SIZE {
            return None;
        }
        let randomness = copy_range(announcement_bytes, 0, ANNOUNCEMENT_RANDOMNESS_SIZE);
        let ct_bytes = copy_range(
            announcement_bytes,
            ANNOUNCEMENT_RANDOMNESS_SIZE,
            kem::CIPHERTEXT_SIZE,
        );
        let ct = kem::Ciphertext::from_bytes(ct_bytes);
        let body_start: usize = ANNOUNCEMENT_RANDOMNESS_SIZE + kem::CIPHERTEXT_SIZE;
        let mut body = copy_range(announcement_bytes, body_start, total - body_start);
        let ss = kem::decapsulate(our_sk, &ct);
        let root_kdf = AnnouncementRootKdf::new(randomness.as_slice(), &ss, &ct, our_pk);
        cipher::decrypt(&root_kdf.cipher_key, &root_kdf.cipher_nonce, &mut body);
        proof {
            assert(body@ =~= spec_ann_plain(announcement_bytes@, our_pk@, our_sk@));
        }
        let pk_next_bytes = copy_range(body.as_slice(), 0, kem::PUBLIC_KEY_SIZE);
        let pk_next = kem::PublicKey::from_bytes(pk_next_bytes);
        let auth_payload = copy_range(
            body.as_slice(),
            kem::PUBLIC_KEY_SIZE,
            body.len() - kem::PUBLIC_KEY_SIZE,
        );
        let auth_kdf = AnnouncementAuthKdf::new(root_kdf.auth_pre_key.as_slice(), &pk_next);
        Some(
            IncomingAnnouncementPrecursor {
                pk_next,
                auth_payload,
                auth_key: auth_kdf.auth_key,
                integrity_seed: root_kdf.integrity_seed,
                id: root_kdf.id,
            },
        )
    }

    /// The authentication payload carried by the announcement.
    pub fn auth_payload(&self) -> (r: &[u8])
        ensures
            r@ == self.auth_payload@,
    {
        self.auth_payload.as_slice()
    }

    /// The authentication key that binds the payload to this announcement.
    /// Both parties derive the same value from their views.
    pub fn auth_key(&self) -> (r: &[u8])
        ensures
            r@ == self.auth_key@,
    {
        self.auth_key.as_slice()
    }

    /// Finalizes the handshake after the caller has authenticated the
    /// payload: integrates the peer's static public key and derives the
    /// session's initial ratchet values from the announcement.
    pub fn finalize(self, pk_peer: kem::PublicKey) -> (r: Option<IncomingAnnouncement>)
        requires
            pk_peer.wf(),
            self.wf(),
        ensures
            r is Some,
            match r {
                Some(ann) => {
                    &&& ann.wf()
                    &&& ann.pk_peer@ == pk_peer@
                    &&& ann.pk_next@ == self.pk_next@
                    &&& ann.mk_next@ == spec_integrity_mk(
                        self.integrity_seed@,
                        self.pk_next@,
                        self.auth_payload@,
                    )
                    &&& ann.seeker_next@ == spec_integrity_seeker(
                        self.integrity_seed@,
                        self.pk_next@,
                        self.auth_payload@,
                    )
                    &&& ann.id@ == self.id@
                },
                None => false,
            },
    {
        let integrity_kdf = MessageIntegrityKdf::new(
            self.integrity_seed.as_slice(),
            &self.pk_next,
            self.auth_payload.as_slice(),
        );
        Some(
            IncomingAnnouncement {
                pk_peer,
                pk_next: self.pk_next,
                mk_next: integrity_kdf.mk_next,
                seeker_next: integrity_kdf.seeker_next,
                id: self.id,
            },
        )
    }
}

/// A finalized incoming announcement: everything the responder side of a
/// session pair needs.
pub struct IncomingAnnouncement {
    /// The initiator's static public key.
    pub pk_peer: kem::PublicKey,
    /// The initiator's next public key from the announcement.
    pub pk_next: kem::PublicKey,
    /// Initial master key derived from the announcement.
    pub mk_next: Vec<u8>,
    /// Initial seeker seed derived from the announcement.
    pub seeker_next: Vec<u8>,
    /// Handshake id for the role tiebreak.
    pub id: Vec<u8>,
}

impl IncomingAnnouncement {
    /// Structural soundness of the parts.
    pub open spec fn wf(&self) -> bool {
        &&& self.pk_peer.wf()
        &&& self.pk_next.wf()
        &&& self.mk_next@.len() == MASTER_KEY_SIZE
        &&& self.seeker_next@.len() == MASTER_KEY_SIZE
        &&& self.id@.len() == MASTER_KEY_SIZE
    }

    /// A fresh copy of this announcement.
    pub fn duplicate(&self) -> (r: IncomingAnnouncement)
        ensures
            r.pk_peer@ == self.pk_peer@,
            r.pk_next@ == self.pk_next@,
            r.mk_next@ == self.mk_next@,
            r.seeker_next@ == self.seeker_next@,
            r.id@ == self.id@,
            self.wf() ==> r.wf(),
    {
        IncomingAnnouncement {
            pk_peer: self.pk_peer.duplicate(),
            pk_next: self.pk_next.duplicate(),
            mk_next: crate::wire::copy_range(self.mk_next.as_slice(), 0, self.mk_next.len()),
            seeker_next: crate::wire::copy_range(
                self.seeker_next.as_slice(),
                0,
                self.seeker_next.len(),
            ),
            id: crate::wire::copy_range(self.id.as_slice(), 0, self.id.len()),
        }
    }
}

/// Intermediate state while creating an announcement: the cryptographic
/// material is fixed, the payload is not yet.
pub struct OutgoingAnnouncementPrecursor {
    /// The announcement randomness.
    pub randomness: Vec<u8>,
    /// The KEM ciphertext encapsulated to the recipient.
    pub kem_ct: kem::Ciphertext,
    /// Key for the announcement body stream cipher.
    pub cipher_key: cipher::Key,
    /// Nonce for the announcement body stream cipher.
    pub cipher_nonce: cipher::Nonce,
    /// The derived authentication key.
    pub auth_key: Vec<u8>,
    /// Seed of the session's initial ratchet values.
    pub integrity_seed: Vec<u8>,
    /// Handshake id for the role tiebreak.
    pub id: Vec<u8>,
    /// The fresh next public key embedded in the announcement.
    pub pk_next: kem::PublicKey,
    /// The matching next secret key, kept by the sender.
    pub sk_next: kem::SecretKey,
}

impl OutgoingAnnouncementPrecursor {
    /// Structural soundness of the parts.
    pub open spec fn wf(&self) -> bool {
        &&& self.randomness@.len() == ANNOUNCEMENT_RANDOMNESS_SIZE
        &&& self.kem_ct.wf()
        &&& self.cipher_key.wf()
        &&& self.cipher_nonce.wf()
        &&& self.auth_key@.len() == MASTER_KEY_SIZE
        &&& self.integrity_seed@.len() == MASTER_KEY_SIZE
        &&& self.id@.len() == MASTER_KEY_SIZE
        &&& self.pk_next.wf()
        &&& self.sk_next.wf()
    }

    /// Whether the precursor's derived fields are the announcement root
    /// derivation of its randomness, the shared secret encapsulated with
    /// `enc_r`, its ciphertext and the recipient key.
    pub open spec fn spec_derived_with(&self, pk_peer: Seq<u8>, enc_r: Seq<u8>) -> bool {
        let ss = kem::kem_encaps_ss(pk_peer, enc_r);
        let rand = self.randomness@;
        let ct = self.kem_ct@;
        &&& ct == kem::kem_encaps_ct(pk_peer, enc_r)
        &&& self.cipher_key@ == spec_ann_root_key(rand, ss, ct, pk_peer)
        &&& self.cipher_nonce@ == spec_ann_root_nonce(rand, ss, ct, pk_peer)
        &&& self.auth_key@ == spec_auth_key(spec_ann_root_pre(rand, ss, ct, pk_peer), self.pk_next@)
        &&& self.integrity_seed@ == spec_ann_root_seed(rand, ss, ct, pk_peer)
        &&& self.id@ == spec_ann_root_id(rand, ss, ct, pk_peer)
    }

    /// Creates an announcement to a peer: draws fresh randomness,
    /// encapsulates to the peer's static public key, derives the root
    /// material and generates the fresh next keypair.
    pub fn new(pk_peer: &kem::PublicKey) -> (r: OutgoingAnnouncementPrecursor)
        requires
            pk_peer.wf(),
        ensures
            r.wf(),
            r.pk_next@ == kem::kem_pk_of(r.sk_next@),
            kem::spec_kem_generated(r.sk_next@),
            exists|enc_r: Seq<u8>| r.spec_derived_with(pk_peer@, enc_r),
    {
        let randomness = fill_random(ANNOUNCEMENT_RANDOMNESS_SIZE);
        let enc_randomness = fill_random(kem::ENCAPSULATION_RANDOMNESS_SIZE);
        let (kem_ct, kem_ss) = kem::encapsulate(pk_peer, enc_randomness.as_slice());
        let root_kdf = AnnouncementRootKdf::new(randomness.as_slice(), &kem_ss, &kem_ct, pk_peer);
        let gen_randomness = fill_random(kem::KEY_GENERATION_RANDOMNESS_SIZE);
        let (sk_next, pk_next) = kem::generate_key_pair(gen_randomness.as_slice());
        let auth_kdf = AnnouncementAuthKdf::new(root_kdf.auth_pre_key.as_slice(), &pk_next);
        let r = OutgoingAnnouncementPrecursor {
            randomness,
            kem_ct,
            cipher_key: root_kdf.cipher_key,
            cipher_nonce: root_kdf.cipher_nonce,
            auth_key: auth_kdf.auth_key,
            integrity_seed: root_kdf.integrity_seed,
            id: root_kdf.id,
            pk_next,
            sk_next,
        };
        proof {
            assert(r.spec_derived_with(pk_peer@, enc_randomness@));
        }
        r
    }

    /// The authentication key that binds an AuthBlob to this announcement.
    pub fn auth_key(&self) -> (r: &[u8])
        ensures
            r@ == self.auth_key@,
    {
        self.auth_key.as_slice()
    }

    /// Finalizes the announcement with an authentication payload: encrypts
    /// `pk_next ‖ auth_payload` under the derived cipher material and
    /// frames the wire bytes, and derives the sender's initial ratchet
    /// values from the same integrity seed the responder will recompute.
    pub fn finalize(self, auth_payload: &[u8]) -> (r: (Vec<u8>, OutgoingAnnouncement))
        requires
            self.wf(),
        ensures
            r.0@ == self.randomness@ + self.kem_ct@ + cipher::spec_ctr_apply(
                self.cipher_key@,
                self.cipher_nonce@,
                self.pk_next@ + auth_payload@,
            ),
            r.0@.len() == ANNOUNCEMENT_MIN_SIZE + auth_payload@.len(),
            r.1.sk_next@ == self.sk_next@,
            kem::spec_kem_generated(self.sk_next@) ==> kem::spec_kem_generated(r.1.sk_next@),
            r.1.mk_next@ == spec_integrity_mk(self.integrity_seed@, self.pk_next@, auth_payload@),
            r.1.seeker_next@ == spec_integrity_seeker(
                self.integrity_seed@,
                self.pk_next@,
                auth_payload@,
            ),
            r.1.id@ == self.id@,
            r.1.announcement_bytes@ == r.0@,
            r.1.wf(),
    {
        let mut plaintext: Vec<u8> = Vec::new();
        push_bytes(&mut plaintext, self.pk_next.as_bytes());
        push_bytes(&mut plaintext, auth_payload);
        cipher::encrypt(&self.cipher_key, &self.cipher_nonce, &mut plaintext);
        let mut announcement_bytes: Vec<u8> = Vec::new();
        push_bytes(&mut announcement_bytes, self.randomness.as_slice());
        push_bytes(&mut announcement_bytes, self.kem_ct.as_bytes());
        push_bytes(&mut announcement_bytes, plaintext.as_slice());
        let integrity_kdf = MessageIntegrityKdf::new(
            self.integrity_seed.as_slice(),
            &self.pk_next,
            auth_payload,
        );
        let bytes_copy = crate::wire::copy_range(
            announcement_bytes.as_slice(),
            0,
            announcement_bytes.len(),
        );
        proof {
            assert(bytes_copy@ =~= announcement_bytes@);
        }
        let announcement = OutgoingAnnouncement {
            sk_next: self.sk_next,
            mk_next: integrity_kdf.mk_next,
            seeker_next: integrity_kdf.seeker_next,
            id: self.id,
            announcement_bytes: bytes_copy,
        };
        (announcement_bytes, announcement)
    }
}

/// A finalized outgoing announcement: everything the initiator side of a
/// session pair needs, together with the wire bytes that were published.
pub struct OutgoingAnnouncement {
    /// The next secret key matching the announced next public key.
    pub sk_next: kem::SecretKey,
    /// Initial master key derived from the announcement.
    pub mk_next: Vec<u8>,
    /// Initial seeker seed derived from the announcement.
    pub seeker_next: Vec<u8>,
    /// Handshake id for the role tiebreak.
    pub id: Vec<u8>,
    /// The wire bytes of the announcement.
    pub announcement_bytes: Vec<u8>,
}

impl OutgoingAnnouncement {
    /// Structural soundness of the parts.
    pub open spec fn wf(&self) -> bool {
        &&& self.sk_next.wf()
        &&& self.mk_next@.len() == MASTER_KEY_SIZE
        &&& self.seeker_next@.len() == MASTER_KEY_SIZE
        &&& self.id@.len() == MASTER_KEY_SIZE
    }

    /// The wire bytes of this announcement, as they were published.
    pub fn announcement_bytes(&self) -> (r: &[u8])
        ensures
            r@ == self.announcement_bytes@,
    {
        self.announcement_bytes.as_slice()
    }

    /// A fresh copy of this announcement.
    pub fn duplicate(&self) -> (r: OutgoingAnnouncement)
        ensures
            r.sk_next@ == self.sk_next@,
            r.mk_next@ == self.mk_next@,
            r.seeker_next@ == self.seeker_next@,
            r.id@ == self.id@,
            r.announcement_bytes@ == self.announcement_bytes@,
            self.wf() ==> r.wf(),
    {
        OutgoingAnnouncement {
            sk_next: self.sk_next.duplicate(),
            mk_next: crate::wire::copy_range(self.mk_next.as_slice(), 0, self.mk_next.len()),
            seeker_next: crate::wire::copy_range(
                self.seeker_next.as_slice(),
                0,
                self.seeker_next.len(),
            ),
            id: crate::wire::copy_range(self.id.as_slice(), 0, self.id.len()),
            announcement_bytes: crate::wire::copy_range(
                self.announcement_bytes.as_slice(),
                0,
                self.announcement_bytes.len(),
            ),
        }
    }
}

} // verus!

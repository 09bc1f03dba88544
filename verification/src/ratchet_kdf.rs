//! The ratchet's key-derivation graph.
//!
//! Every step of the handshake and of the per-message ratchet derives its
//! key material through one of the labeled derivations below.  Each salt and
//! each expand label is a protocol constant: changing any byte changes the
//! protocol.  The sender's role is an input of the root derivations, which
//! is what makes the two directions of a session cryptographically distinct.

use vstd::prelude::*;
use vstd::string::StringSliceAdditionalSpecFns;
use crate::cipher;
use crate::kdf::{Extract, spec_kdf, lemma_kdf_ikm1, lemma_kdf_ikm2, lemma_kdf_ikm3, lemma_kdf_ikm5};
use crate::kem;

verus! {

/// Size of the master keys, seeker seeds and integrity keys.
pub const MASTER_KEY_SIZE: usize = 32;

/// The role of a party in a session: the initiator sent the announcement
/// whose handshake id won the tiebreak; the responder holds the other side.
/// The role is fixed at handshake time and fed into the root derivations.
#[derive(Clone, Copy, Debug, PartialEq, Eq, Structural)]
pub enum Role {
    /// The party whose announcement won the role tiebreak.
    Initiator,
    /// The other party.
    Responder,
}

/// The domain-separation byte of a role.
pub open spec fn spec_role_byte(role: Role) -> Seq<u8> {
    match role {
        Role::Initiator => seq![0u8],
        Role::Responder => seq![1u8],
    }
}

impl Role {
    /// The byte this role contributes to key derivations.
    pub fn as_bytes(&self) -> (r: [u8; 1])
        ensures
            r@ == spec_role_byte(*self),
    {
        match self {
            Role::Initiator => [0u8; 1],
            Role::Responder => [1u8; 1],
        }
    }

    /// The opposite role: what the peer holds, and what a receiver feeds
    /// into the root derivation because the sender was the other side.
    pub fn opposite(&self) -> (r: Role)
        ensures
            r == spec_role_opposite(*self),
    {
        match self {
            Role::Initiator => Role::Responder,
            Role::Responder => Role::Initiator,
        }
    }
}

/// The opposite of a role.
pub open spec fn spec_role_opposite(role: Role) -> Role {
    match role {
        Role::Initiator => Role::Responder,
        Role::Responder => Role::Initiator,
    }
}

/// Initial master key derived from a static public key.
pub open spec fn spec_static_mk(pk: Seq<u8>) -> Seq<u8> {
    spec_kdf(
        "session.static_kem.salt---------".spec_bytes(),
        seq![pk],
        "session.static_kem.mk_next".spec_bytes(),
        MASTER_KEY_SIZE as nat,
    )
}

/// Initial seeker seed derived from a static public key.
pub open spec fn spec_static_seeker(pk: Seq<u8>) -> Seq<u8> {
    spec_kdf(
        "session.static_kem.salt---------".spec_bytes(),
        seq![pk],
        "session.static_kem.seeker_next".spec_bytes(),
        MASTER_KEY_SIZE as nat,
    )
}

/// Bootstraps the ratchet at local id zero: derives the initial master key
/// and seeker seed from a party's static public key.
pub struct StaticKdf {
    /// Initial master key.
    pub mk_next: Vec<u8>,
    /// Initial seeker seed.
    pub seeker_next: Vec<u8>,
}

impl StaticKdf {
    /// Derives the initial ratchet values from a static public key.
    pub fn new(static_pk: &kem::PublicKey) -> (r: StaticKdf)
        ensures
            r.mk_next@ == spec_static_mk(static_pk@),
            r.seeker_next@ == spec_static_seeker(static_pk@),
            r.mk_next@.len() == MASTER_KEY_SIZE,
            r.seeker_next@.len() == MASTER_KEY_SIZE,
    {
        let mut ex = Extract::new("session.static_kem.salt---------".as_bytes());
        ex.input_item(static_pk.as_bytes());
        let expand = ex.finalize();
        proof {
            lemma_kdf_ikm1(static_pk@);
            assert(expand.ikm() =~= crate::kdf::spec_kdf_ikm(seq![static_pk@]));
        }
        let mk_next = expand.expand("session.static_kem.mk_next".as_bytes(), MASTER_KEY_SIZE);
        let seeker_next = expand.expand(
            "session.static_kem.seeker_next".as_bytes(),
            MASTER_KEY_SIZE,
        );
        StaticKdf { mk_next, seeker_next }
    }
}

/// The seeker under which one party looks for the other's next message:
/// derived from the receiver's latest peer seeker seed and the seeker seed
/// of one of their own sent messages.  The order of the two inputs matters.
pub open spec fn spec_seeker(peer_seeker_next: Seq<u8>, self_seeker_next: Seq<u8>) -> Seq<u8> {
    spec_kdf(
        "session.seeker_kdf.salt---------".spec_bytes(),
        seq![peer_seeker_next, self_seeker_next],
        "session.seeker_kem.mk_next".spec_bytes(),
        MASTER_KEY_SIZE as nat,
    )
}

/// Derives a message seeker from the two parties' seeker seeds.
pub struct SeekerKdf {
    /// The derived seeker value.
    pub seeker: Vec<u8>,
}

impl SeekerKdf {
    /// Derives the seeker.  Non-commutative: swapping the seeds names the
    /// opposite direction of the conversation.
    pub fn new(p_self_seeker_next: &[u8], p_peer_seeker_next: &[u8]) -> (r: SeekerKdf)
        ensures
            r.seeker@ == spec_seeker(p_self_seeker_next@, p_peer_seeker_next@),
            r.seeker@.len() == MASTER_KEY_SIZE,
    {
        let mut ex = Extract::new("session.seeker_kdf.salt---------".as_bytes());
        ex.input_item(p_self_seeker_next);
        ex.input_item(p_peer_seeker_next);
        let expand = ex.finalize();
        proof {
            lemma_kdf_ikm2(p_self_seeker_next@, p_peer_seeker_next@);
            assert(expand.ikm() =~= crate::kdf::spec_kdf_ikm(
                seq![p_self_seeker_next@, p_peer_seeker_next@],
            ));
        }
        let seeker = expand.expand("session.seeker_kem.mk_next".as_bytes(), MASTER_KEY_SIZE);
        SeekerKdf { seeker }
    }
}

/// The framed input list of the message root derivation.
pub open spec fn spec_msg_root_items(
    self_mk: Seq<u8>,
    peer_mk: Seq<u8>,
    ss: Seq<u8>,
    ct: Seq<u8>,
    role: Role,
) -> Seq<Seq<u8>> {
    seq![self_mk, peer_mk, ss, ct, spec_role_byte(role)]
}

/// Cipher key of one message, from both master keys, the fresh shared
/// secret, the KEM ciphertext and the sender's role.
pub open spec fn spec_msg_root_key(
    self_mk: Seq<u8>,
    peer_mk: Seq<u8>,
    ss: Seq<u8>,
    ct: Seq<u8>,
    role: Role,
) -> Seq<u8> {
    spec_kdf(
        "session.message_root_kdf.salt---".spec_bytes(),
        spec_msg_root_items(self_mk, peer_mk, ss, ct, role),
        "session.message_root_kdf.cipher_key".spec_bytes(),
        cipher::KEY_SIZE as nat,
    )
}

/// Cipher nonce of one message.
pub open spec fn spec_msg_root_nonce(
    self_mk: Seq<u8>,
    peer_mk: Seq<u8>,
    ss: Seq<u8>,
    ct: Seq<u8>,
    role: Role,
) -> Seq<u8> {
    spec_kdf(
        "session.message_root_kdf.salt---".spec_bytes(),
        spec_msg_root_items(self_mk, peer_mk, ss, ct, role),
        "session.message_root_kdf.cipher_nonce".spec_bytes(),
        cipher::NONCE_SIZE as nat,
    )
}

/// Integrity seed of one message.
pub open spec fn spec_msg_root_seed(
    self_mk: Seq<u8>,
    peer_mk: Seq<u8>,
    ss: Seq<u8>,
    ct: Seq<u8>,
    role: Role,
) -> Seq<u8> {
    spec_kdf(
        "session.message_root_kdf.salt---".spec_bytes(),
        spec_msg_root_items(self_mk, peer_mk, ss, ct, role),
        "session.message_root_kdf.integrity_seed".spec_bytes(),
        MASTER_KEY_SIZE as nat,
    )
}

/// Root derivation of one message: combines the sender's and receiver's
/// current master keys with the fresh KEM output and the sender's role.
pub struct MessageRootKdf {
    /// Key for the message body stream cipher.
    pub cipher_key: cipher::Key,
    /// Nonce for the message body stream cipher.
    pub cipher_nonce: cipher::Nonce,
    /// Seed of the integrity derivation.
    pub integrity_seed: Vec<u8>,
}

impl MessageRootKdf {
    /// Derives the cipher key, nonce and integrity seed of one message.
    pub fn new(
        p_self_mk_next: &[u8],
        p_peer_mk_next: &[u8],
        ss: &kem::SharedSecret,
        ct: &kem::Ciphertext,
        role: Role,
    ) -> (r: MessageRootKdf)
        ensures
            r.cipher_key@ == spec_msg_root_key(p_self_mk_next@, p_peer_mk_next@, ss@, ct@, role),
            r.cipher_nonce@ == spec_msg_root_nonce(
                p_self_mk_next@,
                p_peer_mk_next@,
                ss@,
                ct@,
                role,
            ),
            r.integrity_seed@ == spec_msg_root_seed(p_self_mk_next@, p_peer_mk_next@, ss@, ct@, role),
            r.cipher_key.wf(),
            r.cipher_nonce.wf(),
            r.integrity_seed@.len() == MASTER_KEY_SIZE,
    {
        let mut ex = Extract::new("session.message_root_kdf.salt---".as_bytes());
        ex.input_item(p_self_mk_next);
        ex.input_item(p_peer_mk_next);
        ex.input_item(ss.as_bytes());
        ex.input_item(ct.as_bytes());
        let role_byte = role.as_bytes();
        ex.input_item(role_byte.as_slice());
        let expand = ex.finalize();
        proof {
            lemma_kdf_ikm5(p_self_mk_next@, p_peer_mk_next@, ss@, ct@, spec_role_byte(role));
            assert(expand.ikm() =~= crate::kdf::spec_kdf_ikm(
                spec_msg_root_items(p_self_mk_next@, p_peer_mk_next@, ss@, ct@, role),
            ));
        }
        let key_bytes = expand.expand(
            "session.message_root_kdf.cipher_key".as_bytes(),
            cipher::KEY_SIZE,
        );
        let nonce_bytes = expand.expand(
            "session.message_root_kdf.cipher_nonce".as_bytes(),
            cipher::NONCE_SIZE,
        );
        let integrity_seed = expand.expand(
            "session.message_root_kdf.integrity_seed".as_bytes(),
            MASTER_KEY_SIZE,
        );
        MessageRootKdf {
            cipher_key: cipher::Key::from_bytes(key_bytes),
            cipher_nonce: cipher::Nonce::from_bytes(nonce_bytes),
            integrity_seed,
        }
    }
}

/// The framed input list of the integrity derivation.
pub open spec fn spec_integrity_items(seed: Seq<u8>, pk_next: Seq<u8>, payload: Seq<u8>) -> Seq<
    Seq<u8>,
> {
    seq![seed, pk_next, payload]
}

/// Next master key after one message.
pub open spec fn spec_integrity_mk(seed: Seq<u8>, pk_next: Seq<u8>, payload: Seq<u8>) -> Seq<u8> {
    spec_kdf(
        "session.integrity_kdf.salt------".spec_bytes(),
        spec_integrity_items(seed, pk_next, payload),
        "session.integrity_kdf.mk_next".spec_bytes(),
        MASTER_KEY_SIZE as nat,
    )
}

/// Integrity key of one message: binds the sender's next public key and the
/// payload; a receiver recomputes and compares it.
pub open spec fn spec_integrity_key(seed: Seq<u8>, pk_next: Seq<u8>, payload: Seq<u8>) -> Seq<u8> {
    spec_kdf(
        "session.integrity_kdf.salt------".spec_bytes(),
        spec_integrity_items(seed, pk_next, payload),
        "session.integrity_kdf.integrity_key".spec_bytes(),
        MASTER_KEY_SIZE as nat,
    )
}

/// Next seeker seed after one message.
pub open spec fn spec_integrity_seeker(seed: Seq<u8>, pk_next: Seq<u8>, payload: Seq<u8>) -> Seq<
    u8,
> {
    spec_kdf(
        "session.integrity_kdf.salt------".spec_bytes(),
        spec_integrity_items(seed, pk_next, payload),
        "session.integrity_kdf.seeker_next".spec_bytes(),
        MASTER_KEY_SIZE as nat,
    )
}

/// Integrity and next-state derivation of one message: yields the integrity
/// key that authenticates the message and the master key and seeker seed
/// that the ratchet carries forward.
pub struct MessageIntegrityKdf {
    /// Next master key for the ratchet.
    pub mk_next: Vec<u8>,
    /// Integrity key authenticating the message.
    pub integrity_key: Vec<u8>,
    /// Next seeker seed.
    pub seeker_next: Vec<u8>,
}

impl MessageIntegrityKdf {
    /// Derives the integrity key and the next ratchet state.
    pub fn new(integrity_seed: &[u8], pk_next: &kem::PublicKey, payload: &[u8]) -> (r:
        MessageIntegrityKdf)
        ensures
            r.mk_next@ == spec_integrity_mk(integrity_seed@, pk_next@, payload@),
            r.integrity_key@ == spec_integrity_key(integrity_seed@, pk_next@, payload@),
            r.seeker_next@ == spec_integrity_seeker(integrity_seed@, pk_next@, payload@),
            r.mk_next@.len() == MASTER_KEY_SIZE,
            r.integrity_key@.len() == MASTER_KEY_SIZE,
            r.seeker_next@.len() == MASTER_KEY_SIZE,
    {
        let mut ex = Extract::new("session.integrity_kdf.salt------".as_bytes());
        ex.input_item(integrity_seed);
        ex.input_item(pk_next.as_bytes());
        ex.input_item(payload);
        let expand = ex.finalize();
        proof {
            lemma_kdf_ikm3(integrity_seed@, pk_next@, payload@);
            assert(expand.ikm() =~= crate::kdf::spec_kdf_ikm(
                spec_integrity_items(integrity_seed@, pk_next@, payload@),
            ));
        }
        let mk_next = expand.expand("session.integrity_kdf.mk_next".as_bytes(), MASTER_KEY_SIZE);
        let integrity_key = expand.expand(
            "session.integrity_kdf.integrity_key".as_bytes(),
            MASTER_KEY_SIZE,
        );
        let seeker_next = expand.expand(
            "session.integrity_kdf.seeker_next".as_bytes(),
            MASTER_KEY_SIZE,
        );
        MessageIntegrityKdf { mk_next, integrity_key, seeker_next }
    }
}

/// The framed input list of the announcement root derivation.  The sender
/// of an announcement is always fed as the initiator byte, because the
/// responder recomputes the derivation before roles are assigned.
pub open spec fn spec_ann_root_items(
    randomness: Seq<u8>,
    ss: Seq<u8>,
    ct: Seq<u8>,
    recipient_pk: Seq<u8>,
) -> Seq<Seq<u8>> {
    seq![randomness, ss, ct, recipient_pk, spec_role_byte(Role::Initiator)]
}

/// Cipher key of an announcement body.
pub open spec fn spec_ann_root_key(
    randomness: Seq<u8>,
    ss: Seq<u8>,
    ct: Seq<u8>,
    recipient_pk: Seq<u8>,
) -> Seq<u8> {
    spec_kdf(
        "session.announcement_root.salt--".spec_bytes(),
        spec_ann_root_items(randomness, ss, ct, recipient_pk),
        "session.announcement_root_kdf.cipher_key".spec_bytes(),
        cipher::KEY_SIZE as nat,
    )
}

/// Cipher nonce of an announcement body.
pub open spec fn spec_ann_root_nonce(
    randomness: Seq<u8>,
    ss: Seq<u8>,
    ct: Seq<u8>,
    recipient_pk: Seq<u8>,
) -> Seq<u8> {
    spec_kdf(
        "session.announcement_root.salt--".spec_bytes(),
        spec_ann_root_items(randomness, ss, ct, recipient_pk),
        "session.announcement_root_kdf.cipher_nonce".spec_bytes(),
        cipher::NONCE_SIZE as nat,
    )
}

/// Authentication pre-key of an announcement.
pub open spec fn spec_ann_root_pre(
    randomness: Seq<u8>,
    ss: Seq<u8>,
    ct: Seq<u8>,
    recipient_pk: Seq<u8>,
) -> Seq<u8> {
    spec_kdf(
        "session.announcement_root.salt--".spec_bytes(),
        spec_ann_root_items(randomness, ss, ct, recipient_pk),
        "session.announcement_root_kdf.auth_pre_key".spec_bytes(),
        MASTER_KEY_SIZE as nat,
    )
}

/// Integrity seed of an announcement: the root of the session's initial
/// ratchet values.
pub open spec fn spec_ann_root_seed(
    randomness: Seq<u8>,
    ss: Seq<u8>,
    ct: Seq<u8>,
    recipient_pk: Seq<u8>,
) -> Seq<u8> {
    spec_kdf(
        "session.announcement_root.salt--".spec_bytes(),
        spec_ann_root_items(randomness, ss, ct, recipient_pk),
        "session.announcement_root_kdf.integrity_seed".spec_bytes(),
        MASTER_KEY_SIZE as nat,
    )
}

/// Handshake id of an announcement, used for the role tiebreak.
pub open spec fn spec_ann_root_id(
    randomness: Seq<u8>,
    ss: Seq<u8>,
    ct: Seq<u8>,
    recipient_pk: Seq<u8>,
) -> Seq<u8> {
    spec_kdf(
        "session.announcement_root.salt--".spec_bytes(),
        spec_ann_root_items(randomness, ss, ct, recipient_pk),
        "session.announcement_root_kdf.id".spec_bytes(),
        MASTER_KEY_SIZE as nat,
    )
}

/// Root derivation of an announcement: from the announcement randomness,
/// the encapsulated shared secret, the KEM ciphertext and the recipient's
/// static public key.
pub struct AnnouncementRootKdf {
    /// Key for the announcement body stream cipher.
    pub cipher_key: cipher::Key,
    /// Nonce for the announcement body stream cipher.
    pub cipher_nonce: cipher::Nonce,
    /// Pre-key of the authentication binding.
    pub auth_pre_key: Vec<u8>,
    /// Seed of the session's initial ratchet values.
    pub integrity_seed: Vec<u8>,
    /// Handshake id for the role tiebreak.
    pub id: Vec<u8>,
}

impl AnnouncementRootKdf {
    /// Derives the announcement's cipher material, authentication pre-key,
    /// integrity seed and handshake id.
    pub fn new(randomness: &[u8], ss: &kem::SharedSecret, ct: &kem::Ciphertext, pk: &kem::PublicKey)
        -> (r: AnnouncementRootKdf)
        ensures
            r.cipher_key@ == spec_ann_root_key(randomness@, ss@, ct@, pk@),
            r.cipher_nonce@ == spec_ann_root_nonce(randomness@, ss@, ct@, pk@),
            r.auth_pre_key@ == spec_ann_root_pre(randomness@, ss@, ct@, pk@),
            r.integrity_seed@ == spec_ann_root_seed(randomness@, ss@, ct@, pk@),
            r.id@ == spec_ann_root_id(randomness@, ss@, ct@, pk@),
            r.cipher_key.wf(),
            r.cipher_nonce.wf(),
            r.auth_pre_key@.len() == MASTER_KEY_SIZE,
            r.integrity_seed@.len() == MASTER_KEY_SIZE,
            r.id@.len() == MASTER_KEY_SIZE,
    {
        let mut ex = Extract::new("session.announcement_root.salt--".as_bytes());
        ex.input_item(randomness);
        ex.input_item(ss.as_bytes());
        ex.input_item(ct.as_bytes());
        ex.input_item(pk.as_bytes());
        let role_byte = Role::Initiator.as_bytes();
        ex.input_item(role_byte.as_slice());
        let expand = ex.finalize();
        proof {
            lemma_kdf_ikm5(randomness@, ss@, ct@, pk@, spec_role_byte(Role::Initiator));
            assert(expand.ikm() =~= crate::kdf::spec_kdf_ikm(
                spec_ann_root_items(randomness@, ss@, ct@, pk@),
            ));
        }
        let key_bytes = expand.expand(
            "session.announcement_root_kdf.cipher_key".as_bytes(),
            cipher::KEY_SIZE,
        );
        let nonce_bytes = expand.expand(
            "session.announcement_root_kdf.cipher_nonce".as_bytes(),
            cipher::NONCE_SIZE,
        );
        let auth_pre_key = expand.expand(
            "session.announcement_root_kdf.auth_pre_key".as_bytes(),
            MASTER_KEY_SIZE,
        );
        let integrity_seed = expand.expand(
            "session.announcement_root_kdf.integrity_seed".as_bytes(),
            MASTER_KEY_SIZE,
        );
        let id = expand.expand("session.announcement_root_kdf.id".as_bytes(), MASTER_KEY_SIZE);
        AnnouncementRootKdf {
            cipher_key: cipher::Key::from_bytes(key_bytes),
            cipher_nonce: cipher::Nonce::from_bytes(nonce_bytes),
            auth_pre_key,
            integrity_seed,
            id,
        }
    }
}

/// The authentication key of an announcement: derived from the
/// authentication pre-key and the initiator's next public key.  It is the
/// one value both parties can compute from their views of the handshake,
/// and the witness that AuthBlob verification demands.
pub open spec fn spec_auth_key(auth_pre_key: Seq<u8>, pk_next: Seq<u8>) -> Seq<u8> {
    spec_kdf(
        "agraphon.auth_kdf.salt.V1-------".spec_bytes(),
        seq![auth_pre_key, pk_next],
        "agraphon.auth_kdf.auth_key".spec_bytes(),
        MASTER_KEY_SIZE as nat,
    )
}

/// Derives the authentication key that binds an AuthBlob to one specific
/// announcement.
pub struct AnnouncementAuthKdf {
    /// The authentication key.
    pub auth_key: Vec<u8>,
}

impl AnnouncementAuthKdf {
    /// Derives the authentication key from the pre-key and the initiator's
    /// next public key.
    pub fn new(auth_pre_key: &[u8], pk_next: &kem::PublicKey) -> (r: AnnouncementAuthKdf)
        ensures
            r.auth_key@ == spec_auth_key(auth_pre_key@, pk_next@),
            r.auth_key@.len() == MASTER_KEY_SIZE,
    {
        let mut ex = Extract::new("agraphon.auth_kdf.salt.V1-------".as_bytes());
        ex.input_item(auth_pre_key);
        ex.input_item(pk_next.as_bytes());
        let expand = ex.finalize();
        proof {
            lemma_kdf_ikm2(auth_pre_key@, pk_next@);
            assert(expand.ikm() =~= crate::kdf::spec_kdf_ikm(seq![auth_pre_key@, pk_next@]));
        }
        let auth_key = expand.expand("agraphon.auth_kdf.auth_key".as_bytes(), MASTER_KEY_SIZE);
        AnnouncementAuthKdf { auth_key }
    }
}

} // verus!

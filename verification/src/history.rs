//! Ratchet history: one party's record of their own sent messages and of
//! the peer's most recent message.

use vstd::prelude::*;
use crate::kem;
use crate::ratchet_kdf::{MASTER_KEY_SIZE, StaticKdf, spec_static_mk, spec_static_seeker};

verus! {

/// The secret key a history item decrypts replies with: either an ephemeral
/// key owned by the item, or the party's static key, which the caller
/// supplies at decapsulation time so that the long-lived key stays outside
/// the session's state.
pub enum KeySource {
    /// An ephemeral key generated for one specific message.
    Ephemeral(kem::SecretKey),
    /// The party's static secret key is to be used.
    Static,
}

impl KeySource {
    /// Structural soundness: an ephemeral key has its scheme's size.
    pub open spec fn wf(&self) -> bool {
        match self {
            KeySource::Ephemeral(sk) => sk.wf(),
            KeySource::Static => true,
        }
    }
}

/// The secret key bytes a key source selects, given the static secret key.
pub open spec fn spec_selected_sk(source: &KeySource, static_sk: Seq<u8>) -> Seq<u8> {
    match source {
        KeySource::Ephemeral(sk) => sk@,
        KeySource::Static => static_sk,
    }
}

/// Whether two key sources hold the same key.
pub open spec fn spec_key_source_eq(a: &KeySource, b: &KeySource) -> bool {
    match (a, b) {
        (KeySource::Ephemeral(x), KeySource::Ephemeral(y)) => x@ == y@,
        (KeySource::Static, KeySource::Static) => true,
        _ => false,
    }
}

/// One of our sent messages: everything needed to decrypt the peer's reply
/// to it and to locate that reply on the board.
pub struct HistoryItemSelf {
    /// Sequential local identifier of this message.
    pub local_id: u64,
    /// Secret key for decrypting replies to this message.
    pub sk_next: KeySource,
    /// Master key carried forward by this message.
    pub mk_next: Vec<u8>,
    /// Seeker seed carried forward by this message.
    pub seeker_next: Vec<u8>,
}

impl HistoryItemSelf {
    /// Structural soundness of the item.
    pub open spec fn wf(&self) -> bool {
        &&& self.sk_next.wf()
        &&& self.mk_next@.len() == MASTER_KEY_SIZE
        &&& self.seeker_next@.len() == MASTER_KEY_SIZE
    }

    /// The virtual message with local id zero that exists before any real
    /// message: its ratchet values are derived from our static public key.
    pub fn initial(static_pk_self: &kem::PublicKey) -> (r: HistoryItemSelf)
        ensures
            r.local_id == 0,
            r.sk_next is Static,
            r.mk_next@ == spec_static_mk(static_pk_self@),
            r.seeker_next@ == spec_static_seeker(static_pk_self@),
            r.wf(),
    {
        let static_kdf = StaticKdf::new(static_pk_self);
        HistoryItemSelf {
            local_id: 0,
            sk_next: KeySource::Static,
            mk_next: static_kdf.mk_next,
            seeker_next: static_kdf.seeker_next,
        }
    }
}

/// Whether two self history items hold the same values.
pub open spec fn spec_item_eq(a: &HistoryItemSelf, b: &HistoryItemSelf) -> bool {
    &&& a.local_id == b.local_id
    &&& spec_key_source_eq(&a.sk_next, &b.sk_next)
    &&& a.mk_next@ == b.mk_next@
    &&& a.seeker_next@ == b.seeker_next@
}

/// The peer's most recent message: which of our messages it acknowledged,
/// and the key material it carried forward.  Only the latest is kept,
/// because we always ratchet against the peer's newest state.
pub struct HistoryItemPeer {
    /// The local id of our message the peer was replying to.
    pub our_parent_id: u64,
    /// The peer's next public key, for us to encapsulate to.
    pub pk_next: kem::PublicKey,
    /// The peer's master key after this message.
    pub mk_next: Vec<u8>,
    /// The peer's seeker seed after this message.
    pub seeker_next: Vec<u8>,
}

impl HistoryItemPeer {
    /// Structural soundness of the item.
    pub open spec fn wf(&self) -> bool {
        &&& self.pk_next.wf()
        &&& self.mk_next@.len() == MASTER_KEY_SIZE
        &&& self.seeker_next@.len() == MASTER_KEY_SIZE
    }

    /// The peer's initial state before any message is received: ratchet
    /// values derived from their static public key.
    pub fn initial(static_pk_peer: kem::PublicKey) -> (r: HistoryItemPeer)
        requires
            static_pk_peer.wf(),
        ensures
            r.our_parent_id == 0,
            r.pk_next@ == static_pk_peer@,
            r.mk_next@ == spec_static_mk(static_pk_peer@),
            r.seeker_next@ == spec_static_seeker(static_pk_peer@),
            r.wf(),
    {
        let static_kdf = StaticKdf::new(&static_pk_peer);
        HistoryItemPeer {
            our_parent_id: 0,
            pk_next: static_pk_peer,
            mk_next: static_kdf.mk_next,
            seeker_next: static_kdf.seeker_next,
        }
    }
}

/// Whether two peer history items hold the same values.
pub open spec fn spec_peer_eq(a: &HistoryItemPeer, b: &HistoryItemPeer) -> bool {
    &&& a.our_parent_id == b.our_parent_id
    &&& a.pk_next@ == b.pk_next@
    &&& a.mk_next@ == b.mk_next@
    &&& a.seeker_next@ == b.seeker_next@
}

} // verus!

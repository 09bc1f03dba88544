//! The Agraphon ratchet: a KEM-based double-ratchet session state machine
//! with parent-chain acknowledgement.
//!
//! A session holds the party's role, the ordered history of its own sent
//! messages (contiguous, strictly increasing local ids), and the peer's
//! latest message.  Sending encapsulates to the peer's next key and appends
//! one history item; receiving identifies which of our messages the peer
//! ratcheted from (the parent), checks the message's integrity key, replaces
//! the latest peer state and prunes every history item older than the
//! parent.  On any failure the state is untouched.

use vstd::prelude::*;
use crate::cipher;
use crate::history::{
    HistoryItemPeer, HistoryItemSelf, KeySource, spec_item_eq, spec_peer_eq, spec_selected_sk,
};
use crate::kem;
use crate::announcement::{IncomingAnnouncement, OutgoingAnnouncement};
use crate::ratchet_kdf::{
    MASTER_KEY_SIZE, MessageIntegrityKdf, MessageRootKdf, Role, SeekerKdf, spec_integrity_key,
    spec_integrity_mk, spec_integrity_seeker, spec_msg_root_key, spec_msg_root_nonce,
    spec_msg_root_seed, spec_role_opposite, spec_seeker,
};
use crate::rng::fill_random;
use crate::wire::{copy_range, ct_eq_bytes, lex_cmp, push_bytes, spec_lex_lt};

verus! {

/// The shortest well-formed ratchet message: KEM ciphertext, next public
/// key, and integrity key.
pub const MESSAGE_MIN_SIZE: usize = 2304;

/// The ratchet session state of one party.
pub struct Agraphon {
    /// This party's role, fixed at handshake time.
    pub role: Role,
    /// Our sent messages, oldest first, contiguous local ids.
    pub self_msg_history: Vec<HistoryItemSelf>,
    /// The peer's most recent message.
    pub latest_peer_msg: HistoryItemPeer,
}

impl Agraphon {
    /// The local id of the oldest unacknowledged message.
    pub open spec fn spec_front_id(&self) -> u64 {
        self.self_msg_history@[0].local_id
    }

    /// The local id of the most recent sent message.
    pub open spec fn spec_back_id(&self) -> u64 {
        self.self_msg_history@.last().local_id
    }

    /// The session invariant: the history is never empty, local ids are a
    /// contiguous ascending run, every item is sound, and no history item
    /// is older than the latest acknowledged parent.
    pub open spec fn wf(&self) -> bool {
        &&& self.self_msg_history@.len() >= 1
        &&& forall|i: int|
            0 <= i < self.self_msg_history@.len() ==> (#[trigger] self.self_msg_history@[i]).local_id
                == self.spec_front_id() + i
        &&& forall|i: int|
            0 <= i < self.self_msg_history@.len() ==> (#[trigger] self.self_msg_history@[i]).wf()
        &&& self.spec_front_id() >= self.latest_peer_msg.our_parent_id
        &&& self.latest_peer_msg.wf()
    }

    /// The number of our sent messages not yet acknowledged by any incoming
    /// peer message.
    pub open spec fn spec_lag(&self) -> int {
        self.spec_back_id() - self.latest_peer_msg.our_parent_id
    }

    /// Whether two session states hold the same values.
    pub open spec fn spec_state_eq(a: &Agraphon, b: &Agraphon) -> bool {
        &&& a.role == b.role
        &&& a.self_msg_history@.len() == b.self_msg_history@.len()
        &&& forall|i: int|
            0 <= i < a.self_msg_history@.len() ==> spec_item_eq(
                &a.self_msg_history@[i],
                #[trigger] &b.self_msg_history@[i],
            )
        &&& spec_peer_eq(&a.latest_peer_msg, &b.latest_peer_msg)
    }

    /// Whether `id` names one of the messages still in the history.
    pub open spec fn spec_has_parent(&self, id: u64) -> bool {
        self.spec_front_id() <= id && id < self.spec_front_id() + self.self_msg_history@.len()
    }

    /// What one send does, given the encapsulation randomness `enc_r`: the
    /// wire bytes are the KEM ciphertext followed by the encrypted
    /// `next_pk ‖ payload ‖ integrity_key` body, and the appended history
    /// item carries the derived next master key and seeker seed.
    pub open spec fn spec_send_wire(
        pre: &Agraphon,
        post: &Agraphon,
        payload: Seq<u8>,
        wire: Seq<u8>,
        enc_r: Seq<u8>,
    ) -> bool {
        let peer = pre.latest_peer_msg;
        let back = pre.self_msg_history@.last();
        let ct = kem::kem_encaps_ct(peer.pk_next@, enc_r);
        let ss = kem::kem_encaps_ss(peer.pk_next@, enc_r);
        let seed = spec_msg_root_seed(back.mk_next@, peer.mk_next@, ss, ct, pre.role);
        let new_item = post.self_msg_history@.last();
        let pk_new = kem::kem_pk_of(spec_selected_sk(&new_item.sk_next, Seq::<u8>::empty()));
        &&& new_item.sk_next is Ephemeral
        &&& ct.len() == kem::CIPHERTEXT_SIZE
        &&& pk_new.len() == kem::PUBLIC_KEY_SIZE
        &&& wire == ct + cipher::spec_ctr_apply(
            spec_msg_root_key(back.mk_next@, peer.mk_next@, ss, ct, pre.role),
            spec_msg_root_nonce(back.mk_next@, peer.mk_next@, ss, ct, pre.role),
            pk_new + payload + spec_integrity_key(seed, pk_new, payload),
        )
        &&& new_item.mk_next@ == spec_integrity_mk(seed, pk_new, payload)
        &&& new_item.seeker_next@ == spec_integrity_seeker(seed, pk_new, payload)
    }

    /// Builds a session from this party's outgoing announcement and the
    /// peer's incoming one.  Both sides construct from the same pair (seen
    /// from opposite ends), so they derive identical initial ratchet values
    /// and opposite roles; the role is decided by lexicographic comparison
    /// of the two handshake ids, and a session is refused when the ids are
    /// equal, since the tiebreak would be ambiguous.
    pub fn from_announcement_pair(
        outgoing: OutgoingAnnouncement,
        incoming: &IncomingAnnouncement,
    ) -> (r: Option<Agraphon>)
        requires
            outgoing.wf(),
            incoming.wf(),
        ensures
            (r is Some) == (outgoing.id@ != incoming.id@),
            match r {
                Some(s) => {
                    &&& s.wf()
                    &&& s.role == (if spec_lex_lt(outgoing.id@, incoming.id@) {
                        Role::Initiator
                    } else {
                        Role::Responder
                    })
                    &&& s.self_msg_history@.len() == 1
                    &&& s.self_msg_history@[0].local_id == 0
                    &&& s.self_msg_history@[0].sk_next is Ephemeral
                    &&& spec_selected_sk(&s.self_msg_history@[0].sk_next, Seq::<u8>::empty())
                        == outgoing.sk_next@
                    &&& kem::spec_kem_generated(outgoing.sk_next@) ==> kem::spec_kem_generated(
                        spec_selected_sk(&s.self_msg_history@[0].sk_next, Seq::<u8>::empty()),
                    )
                    &&& s.self_msg_history@[0].mk_next@ == outgoing.mk_next@
                    &&& s.self_msg_history@[0].seeker_next@ == outgoing.seeker_next@
                    &&& s.latest_peer_msg.our_parent_id == 0
                    &&& s.latest_peer_msg.pk_next@ == incoming.pk_next@
                    &&& s.latest_peer_msg.mk_next@ == incoming.mk_next@
                    &&& s.latest_peer_msg.seeker_next@ == incoming.seeker_next@
                    &&& s.spec_lag() == 0
                },
                None => true,
            },
    {
        let verdict: i8 = lex_cmp(outgoing.id.as_slice(), incoming.id.as_slice());
        if verdict == 0 {
            return None;
        }
        let role = if verdict < 0 {
            Role::Initiator
        } else {
            Role::Responder
        };
        let mut self_msg_history: Vec<HistoryItemSelf> = Vec::new();
        self_msg_history.push(
            HistoryItemSelf {
                local_id: 0,
                sk_next: KeySource::Ephemeral(outgoing.sk_next),
                mk_next: outgoing.mk_next,
                seeker_next: outgoing.seeker_next,
            },
        );
        let latest_peer_msg = HistoryItemPeer {
            our_parent_id: 0,
            pk_next: incoming.pk_next.duplicate(),
            mk_next: copy_range(incoming.mk_next.as_slice(), 0, incoming.mk_next.len()),
            seeker_next: copy_range(incoming.seeker_next.as_slice(), 0, incoming.seeker_next.len()),
        };
        Some(Agraphon { role, self_msg_history, latest_peer_msg })
    }

    /// The seekers under which the peer's next message may appear, most
    /// recent first, paired with the local id of the message each one would
    /// acknowledge.
    pub fn possible_incoming_message_seekers(&self) -> (r: Vec<(u64, Vec<u8>)>)
        requires
            self.wf(),
        ensures
            r@.len() == self.self_msg_history@.len(),
            forall|i: int|
                0 <= i < r@.len() ==> {
                    let item = self.self_msg_history@[r@.len() - 1 - i];
                    &&& (#[trigger] r@[i]).0 == item.local_id
                    &&& r@[i].1@ == spec_seeker(
                        self.latest_peer_msg.seeker_next@,
                        item.seeker_next@,
                    )
                },
    {
        let n: usize = self.self_msg_history.len();
        let mut seekers: Vec<(u64, Vec<u8>)> = Vec::new();
        let mut k: usize = 0;
        while k < n
            invariant
                k <= n,
                n == self.self_msg_history@.len(),
                self.wf(),
                seekers@.len() == k,
                forall|i: int|
                    0 <= i < k ==> {
                        let item = self.self_msg_history@[n - 1 - i];
                        &&& (#[trigger] seekers@[i]).0 == item.local_id
                        &&& seekers@[i].1@ == spec_seeker(
                            self.latest_peer_msg.seeker_next@,
                            item.seeker_next@,
                        )
                    },
            decreases n - k,
        {
            let item = &self.self_msg_history[n - 1 - k];
            let kdf = SeekerKdf::new(
                self.latest_peer_msg.seeker_next.as_slice(),
                item.seeker_next.as_slice(),
            );
            seekers.push((item.local_id, kdf.seeker));
            k = k + 1;
        }
        seekers
    }

    /// The decrypted body of an incoming message ratcheted from `parent`,
    /// as this session recovers it.
    pub open spec fn spec_receive_plain(
        &self,
        parent: &HistoryItemSelf,
        static_sk: Seq<u8>,
        message: Seq<u8>,
    ) -> Seq<u8> {
        let ct = message.subrange(0, kem::CIPHERTEXT_SIZE as int);
        let ss = kem::kem_decaps(spec_selected_sk(&parent.sk_next, static_sk), ct);
        let sender_role = spec_role_opposite(self.role);
        cipher::spec_ctr_apply(
            spec_msg_root_key(self.latest_peer_msg.mk_next@, parent.mk_next@, ss, ct, sender_role),
            spec_msg_root_nonce(
                self.latest_peer_msg.mk_next@,
                parent.mk_next@,
                ss,
                ct,
                sender_role,
            ),
            message.subrange(kem::CIPHERTEXT_SIZE as int, message.len() as int),
        )
    }

    /// The integrity seed of an incoming message ratcheted from `parent`.
    pub open spec fn spec_receive_seed(
        &self,
        parent: &HistoryItemSelf,
        static_sk: Seq<u8>,
        message: Seq<u8>,
    ) -> Seq<u8> {
        let ct = message.subrange(0, kem::CIPHERTEXT_SIZE as int);
        let ss = kem::kem_decaps(spec_selected_sk(&parent.sk_next, static_sk), ct);
        spec_msg_root_seed(
            self.latest_peer_msg.mk_next@,
            parent.mk_next@,
            ss,
            ct,
            spec_role_opposite(self.role),
        )
    }

    /// The sender's next public key carried by an incoming message.
    pub open spec fn spec_receive_pk_next(
        &self,
        parent: &HistoryItemSelf,
        static_sk: Seq<u8>,
        message: Seq<u8>,
    ) -> Seq<u8> {
        self.spec_receive_plain(parent, static_sk, message).subrange(0, kem::PUBLIC_KEY_SIZE as int)
    }

    /// The payload carried by an incoming message.
    pub open spec fn spec_receive_payload(
        &self,
        parent: &HistoryItemSelf,
        static_sk: Seq<u8>,
        message: Seq<u8>,
    ) -> Seq<u8> {
        let plain = self.spec_receive_plain(parent, static_sk, message);
        plain.subrange(kem::PUBLIC_KEY_SIZE as int, plain.len() - MASTER_KEY_SIZE)
    }

    /// Whether an incoming message ratcheted from `parent` is accepted: it
    /// is long enough, and the integrity key at its end equals the one
    /// derived from the recovered next public key and payload.
    pub open spec fn spec_receive_ok(
        &self,
        parent: &HistoryItemSelf,
        static_sk: Seq<u8>,
        message: Seq<u8>,
    ) -> bool {
        let plain = self.spec_receive_plain(parent, static_sk, message);
        &&& message.len() >= MESSAGE_MIN_SIZE
        &&& plain.subrange(plain.len() - MASTER_KEY_SIZE, plain.len() as int)
            == spec_integrity_key(
            self.spec_receive_seed(parent, static_sk, message),
            self.spec_receive_pk_next(parent, static_sk, message),
            self.spec_receive_payload(parent, static_sk, message),
        )
    }

    /// Decrypts and processes an incoming message claimed to be ratcheted
    /// from our message `our_parent_id`.  Succeeds exactly when that parent
    /// is still in the history and the integrity check passes; then the
    /// latest peer state is replaced, every history item with a local id
    /// below the parent is pruned, and the acknowledged parent id never
    /// decreases.  On failure the state is untouched.
    pub fn try_feed_incoming_message(
        &mut self,
        our_parent_id: u64,
        self_static_sk: &kem::SecretKey,
        message: &[u8],
    ) -> (r: Option<Vec<u8>>)
        requires
            old(self).wf(),
            self_static_sk.wf(),
        ensures
            final(self).wf(),
            final(self).role == old(self).role,
            ({
                let front = old(self).spec_front_id();
                let parent = &old(self).self_msg_history@[our_parent_id - front];
                &&& (r is Some) == (old(self).spec_has_parent(our_parent_id) && old(
                    self,
                ).spec_receive_ok(parent, self_static_sk@, message@))
                &&& match r {
                    Some(payload) => {
                        &&& payload@ == old(self).spec_receive_payload(
                            parent,
                            self_static_sk@,
                            message@,
                        )
                        &&& final(self).latest_peer_msg.our_parent_id == our_parent_id
                        &&& our_parent_id >= old(self).latest_peer_msg.our_parent_id
                        &&& final(self).latest_peer_msg.pk_next@ == old(self).spec_receive_pk_next(
                            parent,
                            self_static_sk@,
                            message@,
                        )
                        &&& final(self).latest_peer_msg.mk_next@ == spec_integrity_mk(
                            old(self).spec_receive_seed(parent, self_static_sk@, message@),
                            old(self).spec_receive_pk_next(parent, self_static_sk@, message@),
                            old(self).spec_receive_payload(parent, self_static_sk@, message@),
                        )
                        &&& final(self).latest_peer_msg.seeker_next@ == spec_integrity_seeker(
                            old(self).spec_receive_seed(parent, self_static_sk@, message@),
                            old(self).spec_receive_pk_next(parent, self_static_sk@, message@),
                            old(self).spec_receive_payload(parent, self_static_sk@, message@),
                        )
                        &&& final(self).spec_front_id() == our_parent_id
                        &&& final(self).self_msg_history@.len() == old(
                            self,
                        ).self_msg_history@.len() - (our_parent_id - front)
                        &&& forall|i: int|
                            0 <= i < final(self).self_msg_history@.len() ==> spec_item_eq(
                                #[trigger] &final(self).self_msg_history@[i],
                                &old(self).self_msg_history@[i + our_parent_id - front],
                            )
                        &&& forall|i: int|
                            0 <= i < final(self).self_msg_history@.len() ==> (
                            #[trigger] final(self).self_msg_history@[i]).local_id >= our_parent_id
                    },
                    None => Agraphon::spec_state_eq(final(self), old(self)),
                }
            }),
    {
        let total: usize = message.len();
        let front: u64 = self.self_msg_history[0].local_id;
        if our_parent_id < front {
            return None;
        }
        let offset: u64 = our_parent_id - front;
        if offset >= self.self_msg_history.len() as u64 {
            return None;
        }
        let index: usize = offset as usize;
        if total < MESSAGE_MIN_SIZE {
            return None;
        }
        let ct_bytes = copy_range(message, 0, kem::CIPHERTEXT_SIZE);
        let msg_ct = kem::Ciphertext::from_bytes(ct_bytes);
        let parent = &self.self_msg_history[index];
        let msg_ss = match &parent.sk_next {
            KeySource::Static => kem::decapsulate(self_static_sk, &msg_ct),
            KeySource::Ephemeral(sk) => kem::decapsulate(sk, &msg_ct),
        };
        let sender_role = self.role.opposite();
        let root_kdf = MessageRootKdf::new(
            self.latest_peer_msg.mk_next.as_slice(),
            parent.mk_next.as_slice(),
            &msg_ss,
            &msg_ct,
            sender_role,
        );
        let mut content = copy_range(message, kem::CIPHERTEXT_SIZE, total - kem::CIPHERTEXT_SIZE);
        cipher::decrypt(&root_kdf.cipher_key, &root_kdf.cipher_nonce, &mut content);
        proof {
            assert(content@ =~= old(self).spec_receive_plain(
                &old(self).self_msg_history@[our_parent_id - old(self).spec_front_id()],
                self_static_sk@,
                message@,
            ));
        }
        let pk_next_bytes = copy_range(content.as_slice(), 0, kem::PUBLIC_KEY_SIZE);
        let pk_next = kem::PublicKey::from_bytes(pk_next_bytes);
        let payload_end: usize = content.len() - MASTER_KEY_SIZE;
        let payload = copy_range(
            content.as_slice(),
            kem::PUBLIC_KEY_SIZE,
            payload_end - kem::PUBLIC_KEY_SIZE,
        );
        let received_key = copy_range(content.as_slice(), payload_end, MASTER_KEY_SIZE);
        let integrity_kdf = MessageIntegrityKdf::new(
            root_kdf.integrity_seed.as_slice(),
            &pk_next,
            payload.as_slice(),
        );
        if !ct_eq_bytes(received_key.as_slice(), integrity_kdf.integrity_key.as_slice()) {
            return None;
        }
        self.latest_peer_msg = HistoryItemPeer {
            our_parent_id,
            pk_next,
            mk_next: integrity_kdf.mk_next,
            seeker_next: integrity_kdf.seeker_next,
        };
        let mut dropped: usize = 0;
        let ghost pre = *self;
        while dropped < index
            invariant
                dropped <= index,
                index < pre.self_msg_history@.len(),
                self.role == pre.role,
                spec_peer_eq(&self.latest_peer_msg, &pre.latest_peer_msg),
                self.self_msg_history@.len() == pre.self_msg_history@.len() - dropped,
                forall|i: int|
                    0 <= i < self.self_msg_history@.len() ==> spec_item_eq(
                        #[trigger] &self.self_msg_history@[i],
                        &pre.self_msg_history@[i + dropped],
                    ),
            decreases index - dropped,
        {
            let removed = self.self_msg_history.remove(0);
            proof {
                let _ = removed;
            }
            dropped = dropped + 1;
        }
        Some(payload)
    }

    /// Encrypts an outgoing message: encapsulates to the peer's next public
    /// key, derives the message root, generates a fresh next keypair,
    /// derives the integrity key over the next public key and the payload,
    /// and appends the new history item with the next local id.  The
    /// returned bytes are the KEM ciphertext followed by the encrypted
    /// `next_pk ‖ payload ‖ integrity_key` body.
    pub fn send_outgoing_message(&mut self, payload: &[u8]) -> (r: Vec<u8>)
        requires
            old(self).wf(),
            old(self).spec_back_id() < u64::MAX,
        ensures
            final(self).wf(),
            final(self).role == old(self).role,
            spec_peer_eq(&final(self).latest_peer_msg, &old(self).latest_peer_msg),
            final(self).self_msg_history@.len() == old(self).self_msg_history@.len() + 1,
            forall|i: int|
                0 <= i < old(self).self_msg_history@.len() ==> spec_item_eq(
                    #[trigger] &final(self).self_msg_history@[i],
                    &old(self).self_msg_history@[i],
                ),
            final(self).spec_back_id() == old(self).spec_back_id() + 1,
            final(self).spec_lag() == old(self).spec_lag() + 1,
            r@.len() == MESSAGE_MIN_SIZE + payload@.len(),
            kem::spec_kem_generated(
                spec_selected_sk(&final(self).self_msg_history@.last().sk_next, Seq::<u8>::empty()),
            ),
            exists|enc_r: Seq<u8>|
                #[trigger] Agraphon::spec_send_wire(old(self), final(self), payload@, r@, enc_r),
    {
        let back_index: usize = self.self_msg_history.len() - 1;
        let enc_randomness = fill_random(kem::ENCAPSULATION_RANDOMNESS_SIZE);
        let (msg_ct, msg_ss) = kem::encapsulate(&self.latest_peer_msg.pk_next, enc_randomness.as_slice());
        let root_kdf = MessageRootKdf::new(
            self.self_msg_history[back_index].mk_next.as_slice(),
            self.latest_peer_msg.mk_next.as_slice(),
            &msg_ss,
            &msg_ct,
            self.role,
        );
        let gen_randomness = fill_random(kem::KEY_GENERATION_RANDOMNESS_SIZE);
        let (sk_next, pk_next) = kem::generate_key_pair(gen_randomness.as_slice());
        let integrity_kdf = MessageIntegrityKdf::new(
            root_kdf.integrity_seed.as_slice(),
            &pk_next,
            payload,
        );
        let mut body: Vec<u8> = Vec::new();
        push_bytes(&mut body, pk_next.as_bytes());
        push_bytes(&mut body, payload);
        push_bytes(&mut body, integrity_kdf.integrity_key.as_slice());
        cipher::encrypt(&root_kdf.cipher_key, &root_kdf.cipher_nonce, &mut body);
        let new_local_id: u64 = self.self_msg_history[back_index].local_id + 1;
        self.self_msg_history.push(
            HistoryItemSelf {
                local_id: new_local_id,
                sk_next: KeySource::Ephemeral(sk_next),
                mk_next: integrity_kdf.mk_next,
                seeker_next: integrity_kdf.seeker_next,
            },
        );
        let mut message_bytes: Vec<u8> = Vec::new();
        push_bytes(&mut message_bytes, msg_ct.as_bytes());
        push_bytes(&mut message_bytes, body.as_slice());
        proof {
            let new_item = self.self_msg_history@.last();
            let peer = old(self).latest_peer_msg;
            let back = old(self).self_msg_history@.last();
            let enc_r = enc_randomness@;
            let ct = kem::kem_encaps_ct(peer.pk_next@, enc_r);
            let ss = kem::kem_encaps_ss(peer.pk_next@, enc_r);
            let seed = spec_msg_root_seed(back.mk_next@, peer.mk_next@, ss, ct, old(self).role);
            let pk_new = spec_selected_sk(&new_item.sk_next, Seq::<u8>::empty());
            assert(message_bytes@ =~= ct + cipher::spec_ctr_apply(
                spec_msg_root_key(back.mk_next@, peer.mk_next@, ss, ct, old(self).role),
                spec_msg_root_nonce(back.mk_next@, peer.mk_next@, ss, ct, old(self).role),
                kem::kem_pk_of(pk_new) + payload@ + spec_integrity_key(
                    seed,
                    kem::kem_pk_of(pk_new),
                    payload@,
                ),
            ));
            assert(Agraphon::spec_send_wire(old(self), self, payload@, message_bytes@, enc_r));
        }
        message_bytes
    }

    /// Receiving is a function of the state's values: two states holding
    /// the same values accept the same messages with the same payloads.
    pub proof fn lemma_receive_state_congruence(
        a: &Agraphon,
        b: &Agraphon,
        k: int,
        static_sk: Seq<u8>,
        message: Seq<u8>,
    )
        requires
            Agraphon::spec_state_eq(a, b),
            0 <= k < a.self_msg_history@.len(),
        ensures
            a.spec_receive_ok(&a.self_msg_history@[k], static_sk, message) == b.spec_receive_ok(
                &b.self_msg_history@[k],
                static_sk,
                message,
            ),
            a.spec_receive_payload(&a.self_msg_history@[k], static_sk, message)
                == b.spec_receive_payload(&b.self_msg_history@[k], static_sk, message),
    {
        let pa = &a.self_msg_history@[k];
        let pb = &b.self_msg_history@[k];
        assert(spec_item_eq(pa, pb));
        assert(spec_selected_sk(&pa.sk_next, static_sk) == spec_selected_sk(
            &pb.sk_next,
            static_sk,
        ));
        assert(a.spec_receive_plain(pa, static_sk, message) == b.spec_receive_plain(
            pb,
            static_sk,
            message,
        ));
        assert(a.spec_receive_seed(pa, static_sk, message) == b.spec_receive_seed(
            pb,
            static_sk,
            message,
        ));
    }

    /// The lag: how many of our messages the peer has not yet acknowledged.
    /// Never negative, by the session invariant.
    pub fn lag_length(&self) -> (r: u64)
        requires
            self.wf(),
        ensures
            r == self.spec_lag(),
    {
        let back_index: usize = self.self_msg_history.len() - 1;
        let our_latest: u64 = self.self_msg_history[back_index].local_id;
        our_latest - self.latest_peer_msg.our_parent_id
    }

    /// The local id of the most recent sent message.
    pub fn latest_local_id(&self) -> (r: u64)
        requires
            self.wf(),
        ensures
            r == self.spec_back_id(),
    {
        let back_index: usize = self.self_msg_history.len() - 1;
        self.self_msg_history[back_index].local_id
    }
}

} // verus!

//! The at-rest encoding of manager state.
//!
//! Every field of the manager, its sessions and their ratchets is laid out
//! with length-prefixed frames and fixed-width integers.  Each decoder
//! proves parse soundness: whatever it returns is well formed and encodes
//! back to exactly the bytes it consumed, so a state loaded from an
//! authenticated blob is precisely the state whose encoding was sealed.

use vstd::prelude::*;
use crate::agraphon::Agraphon;
use crate::auth::UserPublicKeys;
use crate::dsa;
use crate::history::{HistoryItemPeer, HistoryItemSelf, KeySource};
use crate::kem;
use crate::secondary;
use crate::session::{IncomingInitiationRequest, OutgoingInitiationRequest, Session};
use crate::announcement::{IncomingAnnouncement, OutgoingAnnouncement};
use crate::ratchet_kdf::{MASTER_KEY_SIZE, Role};
use crate::wire::{
    push_bytes, push_framed, push_u128_be, push_u64_be, read_framed, read_u128_be, read_u64_be,
    spec_framed, spec_u128_be, spec_u64_be,
};

verus! {

/// Largest list a decoder accepts: a loaded state may hold at most this
/// many peers, history items per ratchet, and posted board keys per
/// session.  Longer encodings are rejected rather than decoded.
pub const MAX_DECODED_LIST: u64 = 1000000;

/// Encoding of a key bundle: three framed keys in fixed order.
pub open spec fn spec_enc_keys(dsa_vk: Seq<u8>, kem_pk: Seq<u8>, sec_pk: Seq<u8>) -> Seq<u8> {
    spec_framed(dsa_vk) + spec_framed(kem_pk) + spec_framed(sec_pk)
}

/// Encoding of one self history item.
pub open spec fn spec_enc_item(item: &HistoryItemSelf) -> Seq<u8> {
    spec_u64_be(item.local_id) + (match item.sk_next {
        KeySource::Static => seq![0u8],
        KeySource::Ephemeral(ref sk) => seq![1u8] + spec_framed(sk@),
    }) + spec_framed(item.mk_next@) + spec_framed(item.seeker_next@)
}

/// Encoding of a list of self history items, in order.
pub open spec fn spec_enc_items(items: Seq<HistoryItemSelf>) -> Seq<u8>
    decreases items.len(),
{
    if items.len() == 0 {
        Seq::<u8>::empty()
    } else {
        spec_enc_item(&items[0]) + spec_enc_items(items.drop_first())
    }
}

/// Appending one item extends the encoding by that item's encoding.
pub proof fn lemma_enc_items_push(items: Seq<HistoryItemSelf>, item: HistoryItemSelf)
    ensures
        spec_enc_items(items.push(item)) == spec_enc_items(items) + spec_enc_item(&item),
    decreases items.len(),
{
    if items.len() == 0 {
        assert(items.push(item).drop_first() =~= Seq::<HistoryItemSelf>::empty());
        assert(items.push(item)[0] == item);
        assert(items =~= Seq::<HistoryItemSelf>::empty());
        assert(spec_enc_items(Seq::<HistoryItemSelf>::empty()) == Seq::<u8>::empty());
        assert(spec_enc_items(items.push(item)) == spec_enc_item(&item) + Seq::<u8>::empty());
        assert(spec_enc_items(items.push(item)) =~= spec_enc_items(items) + spec_enc_item(&item));
    } else {
        assert(items.push(item).drop_first() =~= items.drop_first().push(item));
        assert(items.push(item)[0] == items[0]);
        lemma_enc_items_push(items.drop_first(), item);
        assert(spec_enc_items(items.push(item)) == spec_enc_item(&items[0]) + spec_enc_items(
            items.drop_first().push(item),
        ));
        assert(spec_enc_items(items) == spec_enc_item(&items[0]) + spec_enc_items(
            items.drop_first(),
        ));
        assert(spec_enc_items(items.push(item)) =~= spec_enc_items(items) + spec_enc_item(&item));
    }
}

/// Encoding of the peer's latest message.
pub open spec fn spec_enc_peer_item(peer: &HistoryItemPeer) -> Seq<u8> {
    spec_u64_be(peer.our_parent_id) + spec_framed(peer.pk_next@) + spec_framed(peer.mk_next@)
        + spec_framed(peer.seeker_next@)
}

/// Encoding of a ratchet session: role byte, item count, items, peer item.
pub open spec fn spec_enc_agraphon(a: &Agraphon) -> Seq<u8> {
    crate::ratchet_kdf::spec_role_byte(a.role) + spec_u64_be(a.self_msg_history@.len() as u64)
        + spec_enc_items(a.self_msg_history@) + spec_enc_peer_item(&a.latest_peer_msg)
}

/// Encoding of one posted board key record.
pub open spec fn spec_enc_posted_one(entry: &(u64, Vec<u8>)) -> Seq<u8> {
    spec_u64_be(entry.0) + spec_framed(entry.1@)
}

/// Encoding of the posted board key list.
pub open spec fn spec_enc_posted(entries: Seq<(u64, Vec<u8>)>) -> Seq<u8>
    decreases entries.len(),
{
    if entries.len() == 0 {
        Seq::<u8>::empty()
    } else {
        spec_enc_posted_one(&entries[0]) + spec_enc_posted(entries.drop_first())
    }
}

/// Appending one record extends the encoding by that record's encoding.
pub proof fn lemma_enc_posted_push(entries: Seq<(u64, Vec<u8>)>, entry: (u64, Vec<u8>))
    ensures
        spec_enc_posted(entries.push(entry)) == spec_enc_posted(entries) + spec_enc_posted_one(
            &entry,
        ),
    decreases entries.len(),
{
    if entries.len() == 0 {
        assert(entries.push(entry).drop_first() =~= Seq::<(u64, Vec<u8>)>::empty());
        assert(entries.push(entry)[0] == entry);
        assert(entries =~= Seq::<(u64, Vec<u8>)>::empty());
        assert(spec_enc_posted(Seq::<(u64, Vec<u8>)>::empty()) == Seq::<u8>::empty());
        assert(spec_enc_posted(entries.push(entry)) == spec_enc_posted_one(&entry)
            + Seq::<u8>::empty());
        assert(spec_enc_posted(entries.push(entry)) =~= spec_enc_posted(entries)
            + spec_enc_posted_one(&entry));
    } else {
        assert(entries.push(entry).drop_first() =~= entries.drop_first().push(entry));
        assert(entries.push(entry)[0] == entries[0]);
        lemma_enc_posted_push(entries.drop_first(), entry);
        assert(spec_enc_posted(entries.push(entry)) == spec_enc_posted_one(&entries[0])
            + spec_enc_posted(entries.drop_first().push(entry)));
        assert(spec_enc_posted(entries) == spec_enc_posted_one(&entries[0]) + spec_enc_posted(
            entries.drop_first(),
        ));
        assert(spec_enc_posted(entries.push(entry)) =~= spec_enc_posted(entries)
            + spec_enc_posted_one(&entry));
    }
}

/// Encoding of a live session.
pub open spec fn spec_enc_session(s: &Session) -> Seq<u8> {
    spec_enc_agraphon(&s.agraphon_instance) + spec_enc_keys(
        s.peer_public_keys.dsa_verification_key@,
        s.peer_public_keys.kem_public_key@,
        s.peer_public_keys.secondary_public_key@,
    ) + spec_framed(s.peer_seeker_secret@) + spec_framed(s.self_seeker_secret@) + spec_u64_be(
        s.posted_seekers@.len() as u64,
    ) + spec_enc_posted(s.posted_seekers@)
}

/// Encoding of an incoming initiation request.
pub open spec fn spec_enc_in_req(r: &IncomingInitiationRequest) -> Seq<u8> {
    spec_framed(r.agraphon_announcement.pk_peer@) + spec_framed(r.agraphon_announcement.pk_next@)
        + spec_framed(r.agraphon_announcement.mk_next@) + spec_framed(
        r.agraphon_announcement.seeker_next@,
    ) + spec_framed(r.agraphon_announcement.id@) + spec_enc_keys(
        r.origin_public_keys.dsa_verification_key@,
        r.origin_public_keys.kem_public_key@,
        r.origin_public_keys.secondary_public_key@,
    ) + spec_u128_be(r.timestamp_millis) + spec_framed(r.seeker_secret@)
}

/// Encoding of an outgoing initiation request.
pub open spec fn spec_enc_out_req(r: &OutgoingInitiationRequest) -> Seq<u8> {
    spec_framed(r.agraphon_announcement.sk_next@) + spec_framed(r.agraphon_announcement.mk_next@)
        + spec_framed(r.agraphon_announcement.seeker_next@) + spec_framed(
        r.agraphon_announcement.id@,
    ) + spec_framed(r.agraphon_announcement.announcement_bytes@) + spec_u128_be(
        r.timestamp_millis,
    ) + spec_framed(r.seeker_secret@)
}

/// Appends the encoding of a key bundle.
pub fn push_keys(out: &mut Vec<u8>, keys: &UserPublicKeys)
    ensures
        final(out)@ == old(out)@ + spec_enc_keys(
            keys.dsa_verification_key@,
            keys.kem_public_key@,
            keys.secondary_public_key@,
        ),
{
    push_framed(out, keys.dsa_verification_key.as_bytes());
    push_framed(out, keys.kem_public_key.as_bytes());
    push_framed(out, keys.secondary_public_key.as_slice());
    assert(out@ =~= old(out)@ + spec_enc_keys(
        keys.dsa_verification_key@,
        keys.kem_public_key@,
        keys.secondary_public_key@,
    ));
}

/// Reads a key bundle.
pub fn read_keys(bytes: &[u8], at: usize) -> (r: Option<(UserPublicKeys, usize)>)
    ensures
        match r {
            Some((keys, next)) => {
                &&& keys.wf()
                &&& at <= next <= bytes@.len()
                &&& spec_enc_keys(
                    keys.dsa_verification_key@,
                    keys.kem_public_key@,
                    keys.secondary_public_key@,
                ) =~= bytes@.subrange(at as int, next as int)
            },
            None => true,
        },
{
    let Some((dsa_vk, at1)) = read_framed(bytes, at) else {
        return None;
    };
    if dsa_vk.len() != dsa::VERIFICATION_KEY_SIZE {
        return None;
    }
    let Some((kem_pk, at2)) = read_framed(bytes, at1) else {
        return None;
    };
    if kem_pk.len() != kem::PUBLIC_KEY_SIZE {
        return None;
    }
    let Some((sec_pk, at3)) = read_framed(bytes, at2) else {
        return None;
    };
    if sec_pk.len() != secondary::SECONDARY_PUBLIC_KEY_SIZE {
        return None;
    }
    let keys = UserPublicKeys {
        dsa_verification_key: dsa::VerificationKey::from_bytes(dsa_vk),
        kem_public_key: kem::PublicKey::from_bytes(kem_pk),
        secondary_public_key: sec_pk,
    };
    proof {
        crate::wire::lemma_u64_be_surjective(bytes@.subrange(at as int, at + 8));
        crate::wire::lemma_u64_be_surjective(bytes@.subrange(at1 as int, at1 + 8));
        crate::wire::lemma_u64_be_surjective(bytes@.subrange(at2 as int, at2 + 8));
    }
    Some((keys, at3))
}

/// Appends the encoding of a ratchet session.
pub fn push_agraphon(out: &mut Vec<u8>, a: &Agraphon)
    requires
        a.wf(),
    ensures
        final(out)@ == old(out)@ + spec_enc_agraphon(a),
{
    let role_byte = a.role.as_bytes();
    push_bytes(out, role_byte.as_slice());
    let count: usize = a.self_msg_history.len();
    push_u64_be(out, count as u64);
    let ghost base = out@;
    let mut i: usize = 0;
    proof {
        assert(spec_enc_items(a.self_msg_history@.subrange(0, 0)) =~= Seq::<u8>::empty());
        assert(out@ =~= base + spec_enc_items(a.self_msg_history@.subrange(0, 0)));
    }
    while i < count
        invariant
            i <= count,
            count == a.self_msg_history@.len(),
            a.wf(),
            out@ == base + spec_enc_items(a.self_msg_history@.subrange(0, i as int)),
        decreases count - i,
    {
        let item = &a.self_msg_history[i];
        push_u64_be(out, item.local_id);
        match &item.sk_next {
            KeySource::Static => {
                out.push(0u8);
            },
            KeySource::Ephemeral(sk) => {
                out.push(1u8);
                push_framed(out, sk.as_bytes());
            },
        }
        push_framed(out, item.mk_next.as_slice());
        push_framed(out, item.seeker_next.as_slice());
        proof {
            let prefix = a.self_msg_history@.subrange(0, i as int);
            assert(a.self_msg_history@.subrange(0, i + 1) =~= prefix.push(
                a.self_msg_history@[i as int],
            ));
            lemma_enc_items_push(prefix, a.self_msg_history@[i as int]);
            assert(out@ =~= base + spec_enc_items(a.self_msg_history@.subrange(0, i + 1)));
        }
        i = i + 1;
    }
    proof {
        assert(a.self_msg_history@.subrange(0, count as int) =~= a.self_msg_history@);
    }
    push_u64_be(out, a.latest_peer_msg.our_parent_id);
    push_framed(out, a.latest_peer_msg.pk_next.as_bytes());
    push_framed(out, a.latest_peer_msg.mk_next.as_slice());
    push_framed(out, a.latest_peer_msg.seeker_next.as_slice());
    assert(out@ =~= old(out)@ + spec_enc_agraphon(a));
}

/// Reads a ratchet session.  Rejects anything that breaks the session
/// invariant: empty history, non-contiguous ids, out-of-range parent.
#[verifier::rlimit(60)]
pub fn read_agraphon(bytes: &[u8], at: usize) -> (r: Option<(Agraphon, usize)>)
    ensures
        match r {
            Some((a, next)) => {
                &&& a.wf()
                &&& at <= next <= bytes@.len()
                &&& spec_enc_agraphon(&a) =~= bytes@.subrange(at as int, next as int)
            },
            None => true,
        },
{
    let total: usize = bytes.len();
    if at >= total {
        return None;
    }
    let role = if bytes[at] == 0 {
        Role::Initiator
    } else if bytes[at] == 1 {
        Role::Responder
    } else {
        return None;
    };
    let at0: usize = at + 1;
    if total - at0 < 8 {
        return None;
    }
    let count64: u64 = read_u64_be(bytes, at0);
    if count64 == 0 || count64 > MAX_DECODED_LIST {
        return None;
    }
    let count: usize = count64 as usize;
    let mut items: Vec<HistoryItemSelf> = Vec::new();
    let mut cursor: usize = at0 + 8;
    let mut i: usize = 0;
    proof {
        assert(spec_enc_items(items@) =~= Seq::<u8>::empty());
        assert(bytes@.subrange(at0 + 8, cursor as int) =~= Seq::<u8>::empty());
    }
    while i < count
        invariant
            i <= count,
            items@.len() == i,
            at0 + 8 <= cursor <= bytes@.len(),
            spec_enc_items(items@) =~= bytes@.subrange(at0 + 8, cursor as int),
            forall|j: int| 0 <= j < i ==> (#[trigger] items@[j]).wf(),
            forall|j: int|
                0 <= j < i ==> (#[trigger] items@[j]).local_id == items@[0].local_id + j,
        decreases count - i,
    {
        let item_start: usize = cursor;
        if bytes.len() - cursor < 8 {
            return None;
        }
        let local_id: u64 = read_u64_be(bytes, cursor);
        cursor = cursor + 8;
        if cursor >= bytes.len() {
            return None;
        }
        let tag: u8 = bytes[cursor];
        cursor = cursor + 1;
        let sk_next: KeySource = if tag == 0 {
            KeySource::Static
        } else if tag == 1 {
            let Some((sk_bytes, c2)) = read_framed(bytes, cursor) else {
                return None;
            };
            if sk_bytes.len() != kem::PRIVATE_KEY_SIZE {
                return None;
            }
            proof {
                crate::wire::lemma_u64_be_surjective(bytes@.subrange(cursor as int, cursor + 8));
            }
            cursor = c2;
            KeySource::Ephemeral(kem::SecretKey::from_bytes(sk_bytes))
        } else {
            return None;
        };
        let Some((mk_next, c3)) = read_framed(bytes, cursor) else {
            return None;
        };
        if mk_next.len() != MASTER_KEY_SIZE {
            return None;
        }
        proof {
            crate::wire::lemma_u64_be_surjective(bytes@.subrange(cursor as int, cursor + 8));
        }
        cursor = c3;
        let Some((seeker_next, c4)) = read_framed(bytes, cursor) else {
            return None;
        };
        if seeker_next.len() != MASTER_KEY_SIZE {
            return None;
        }
        proof {
            crate::wire::lemma_u64_be_surjective(bytes@.subrange(cursor as int, cursor + 8));
        }
        cursor = c4;
        let item = HistoryItemSelf { local_id, sk_next, mk_next, seeker_next };
        if items.len() > 0 {
            let prev_front: u64 = items[0].local_id;
            let Some(expected) = prev_front.checked_add(items.len() as u64) else {
                return None;
            };
            if local_id != expected {
                return None;
            }
        }
        proof {
            crate::wire::lemma_u64_be_surjective(
                bytes@.subrange(item_start as int, item_start + 8),
            );
            assert(spec_enc_item(&item) =~= bytes@.subrange(item_start as int, cursor as int));
            lemma_enc_items_push(items@, item);
        }
        items.push(item);
        proof {
            assert(spec_enc_items(items@) =~= bytes@.subrange(at0 + 8, cursor as int));
        }
        i = i + 1;
    }
    if bytes.len() - cursor < 8 {
        return None;
    }
    let peer_start: usize = cursor;
    let our_parent_id: u64 = read_u64_be(bytes, cursor);
    cursor = cursor + 8;
    let Some((pk_next, c5)) = read_framed(bytes, cursor) else {
        return None;
    };
    if pk_next.len() != kem::PUBLIC_KEY_SIZE {
        return None;
    }
    proof {
        crate::wire::lemma_u64_be_surjective(bytes@.subrange(cursor as int, cursor + 8));
    }
    cursor = c5;
    let Some((peer_mk, c6)) = read_framed(bytes, cursor) else {
        return None;
    };
    if peer_mk.len() != MASTER_KEY_SIZE {
        return None;
    }
    proof {
        crate::wire::lemma_u64_be_surjective(bytes@.subrange(cursor as int, cursor + 8));
    }
    cursor = c6;
    let Some((peer_seeker, c7)) = read_framed(bytes, cursor) else {
        return None;
    };
    if peer_seeker.len() != MASTER_KEY_SIZE {
        return None;
    }
    proof {
        crate::wire::lemma_u64_be_surjective(bytes@.subrange(cursor as int, cursor + 8));
    }
    cursor = c7;
    if our_parent_id > items[0].local_id {
        return None;
    }
    let latest_peer_msg = HistoryItemPeer {
        our_parent_id,
        pk_next: kem::PublicKey::from_bytes(pk_next),
        mk_next: peer_mk,
        seeker_next: peer_seeker,
    };
    let a = Agraphon { role, self_msg_history: items, latest_peer_msg };
    proof {
        crate::wire::lemma_u64_be_surjective(bytes@.subrange(at0 as int, at0 + 8));
        crate::wire::lemma_u64_be_surjective(bytes@.subrange(peer_start as int, peer_start + 8));
        assert(spec_enc_peer_item(&a.latest_peer_msg) =~= bytes@.subrange(
            peer_start as int,
            cursor as int,
        ));
        assert(spec_enc_agraphon(&a) =~= bytes@.subrange(at as int, cursor as int));
    }
    Some((a, cursor))
}

/// Appends the encoding of a live session.
pub fn push_session(out: &mut Vec<u8>, s: &Session)
    requires
        s.wf(),
    ensures
        final(out)@ == old(out)@ + spec_enc_session(s),
{
    push_agraphon(out, &s.agraphon_instance);
    push_keys(out, &s.peer_public_keys);
    push_framed(out, s.peer_seeker_secret.as_slice());
    push_framed(out, s.self_seeker_secret.as_slice());
    let count: usize = s.posted_seekers.len();
    push_u64_be(out, count as u64);
    let ghost base = out@;
    let mut i: usize = 0;
    proof {
        assert(spec_enc_posted(s.posted_seekers@.subrange(0, 0)) =~= Seq::<u8>::empty());
        assert(out@ =~= base + spec_enc_posted(s.posted_seekers@.subrange(0, 0)));
    }
    while i < count
        invariant
            i <= count,
            count == s.posted_seekers@.len(),
            out@ == base + spec_enc_posted(s.posted_seekers@.subrange(0, i as int)),
        decreases count - i,
    {
        let entry = &s.posted_seekers[i];
        push_u64_be(out, entry.0);
        push_framed(out, entry.1.as_slice());
        proof {
            let prefix = s.posted_seekers@.subrange(0, i as int);
            assert(s.posted_seekers@.subrange(0, i + 1) =~= prefix.push(
                s.posted_seekers@[i as int],
            ));
            lemma_enc_posted_push(prefix, s.posted_seekers@[i as int]);
            assert(out@ =~= base + spec_enc_posted(s.posted_seekers@.subrange(0, i + 1)));
        }
        i = i + 1;
    }
    proof {
        assert(s.posted_seekers@.subrange(0, count as int) =~= s.posted_seekers@);
    }
    assert(out@ =~= old(out)@ + spec_enc_session(s));
}

/// Reads a live session.
#[verifier::rlimit(60)]
pub fn read_session(bytes: &[u8], at: usize) -> (r: Option<(Session, usize)>)
    ensures
        match r {
            Some((s, next)) => {
                &&& s.wf()
                &&& at <= next <= bytes@.len()
                &&& spec_enc_session(&s) =~= bytes@.subrange(at as int, next as int)
            },
            None => true,
        },
{
    let Some((agraphon_instance, at1)) = read_agraphon(bytes, at) else {
        return None;
    };
    let Some((peer_public_keys, at2)) = read_keys(bytes, at1) else {
        return None;
    };
    let Some((peer_seeker_secret, at3)) = read_framed(bytes, at2) else {
        return None;
    };
    if peer_seeker_secret.len() != secondary::SECONDARY_SECRET_KEY_SIZE {
        return None;
    }
    proof {
        crate::wire::lemma_u64_be_surjective(bytes@.subrange(at2 as int, at2 + 8));
    }
    let Some((self_seeker_secret, at4)) = read_framed(bytes, at3) else {
        return None;
    };
    if self_seeker_secret.len() != secondary::SECONDARY_SECRET_KEY_SIZE {
        return None;
    }
    proof {
        crate::wire::lemma_u64_be_surjective(bytes@.subrange(at3 as int, at3 + 8));
    }
    if bytes.len() - at4 < 8 {
        return None;
    }
    let count64: u64 = read_u64_be(bytes, at4);
    if count64 > MAX_DECODED_LIST {
        return None;
    }
    let count: usize = count64 as usize;
    let mut posted_seekers: Vec<(u64, Vec<u8>)> = Vec::new();
    let mut cursor: usize = at4 + 8;
    let mut i: usize = 0;
    proof {
        assert(spec_enc_posted(posted_seekers@) =~= Seq::<u8>::empty());
        assert(bytes@.subrange(at4 + 8, cursor as int) =~= Seq::<u8>::empty());
    }
    while i < count
        invariant
            i <= count,
            posted_seekers@.len() == i,
            at4 + 8 <= cursor <= bytes@.len(),
            spec_enc_posted(posted_seekers@) =~= bytes@.subrange(at4 + 8, cursor as int),
        decreases count - i,
    {
        let entry_start: usize = cursor;
        if bytes.len() - cursor < 8 {
            return None;
        }
        let id: u64 = read_u64_be(bytes, cursor);
        cursor = cursor + 8;
        let Some((sk, c2)) = read_framed(bytes, cursor) else {
            return None;
        };
        proof {
            crate::wire::lemma_u64_be_surjective(bytes@.subrange(cursor as int, cursor + 8));
            crate::wire::lemma_u64_be_surjective(
                bytes@.subrange(entry_start as int, entry_start + 8),
            );
        }
        cursor = c2;
        let entry: (u64, Vec<u8>) = (id, sk);
        proof {
            assert(spec_enc_posted_one(&entry) =~= bytes@.subrange(
                entry_start as int,
                cursor as int,
            ));
            lemma_enc_posted_push(posted_seekers@, entry);
        }
        posted_seekers.push(entry);
        proof {
            assert(spec_enc_posted(posted_seekers@) =~= bytes@.subrange(at4 + 8, cursor as int));
        }
        i = i + 1;
    }
    let s = Session {
        agraphon_instance,
        peer_public_keys,
        peer_seeker_secret,
        self_seeker_secret,
        posted_seekers,
    };
    proof {
        crate::wire::lemma_u64_be_surjective(bytes@.subrange(at4 as int, at4 + 8));
        assert(spec_enc_session(&s) =~= bytes@.subrange(at as int, cursor as int));
    }
    Some((s, cursor))
}

/// Appends the encoding of an incoming initiation request.
pub fn push_in_req(out: &mut Vec<u8>, r: &IncomingInitiationRequest)
    ensures
        final(out)@ == old(out)@ + spec_enc_in_req(r),
{
    push_framed(out, r.agraphon_announcement.pk_peer.as_bytes());
    push_framed(out, r.agraphon_announcement.pk_next.as_bytes());
    push_framed(out, r.agraphon_announcement.mk_next.as_slice());
    push_framed(out, r.agraphon_announcement.seeker_next.as_slice());
    push_framed(out, r.agraphon_announcement.id.as_slice());
    push_keys(out, &r.origin_public_keys);
    push_u128_be(out, r.timestamp_millis);
    push_framed(out, r.seeker_secret.as_slice());
    assert(out@ =~= old(out)@ + spec_enc_in_req(r));
}

/// Reads an incoming initiation request.
#[verifier::rlimit(60)]
pub fn read_in_req(bytes: &[u8], at: usize) -> (r: Option<(IncomingInitiationRequest, usize)>)
    ensures
        match r {
            Some((req, next)) => {
                &&& req.wf()
                &&& at <= next <= bytes@.len()
                &&& spec_enc_in_req(&req) =~= bytes@.subrange(at as int, next as int)
            },
            None => true,
        },
{
    let Some((pk_peer, at1)) = read_framed(bytes, at) else {
        return None;
    };
    if pk_peer.len() != kem::PUBLIC_KEY_SIZE {
        return None;
    }
    let Some((pk_next, at2)) = read_framed(bytes, at1) else {
        return None;
    };
    if pk_next.len() != kem::PUBLIC_KEY_SIZE {
        return None;
    }
    let Some((mk_next, at3)) = read_framed(bytes, at2) else {
        return None;
    };
    if mk_next.len() != MASTER_KEY_SIZE {
        return None;
    }
    let Some((seeker_next, at4)) = read_framed(bytes, at3) else {
        return None;
    };
    if seeker_next.len() != MASTER_KEY_SIZE {
        return None;
    }
    let Some((id, at5)) = read_framed(bytes, at4) else {
        return None;
    };
    if id.len() != MASTER_KEY_SIZE {
        return None;
    }
    let Some((origin_public_keys, at6)) = read_keys(bytes, at5) else {
        return None;
    };
    if bytes.len() - at6 < 16 {
        return None;
    }
    let timestamp_millis: u128 = read_u128_be(bytes, at6);
    let at7: usize = at6 + 16;
    let Some((seeker_secret, at8)) = read_framed(bytes, at7) else {
        return None;
    };
    if seeker_secret.len() != secondary::SECONDARY_SECRET_KEY_SIZE {
        return None;
    }
    let req = IncomingInitiationRequest {
        agraphon_announcement: IncomingAnnouncement {
            pk_peer: kem::PublicKey::from_bytes(pk_peer),
            pk_next: kem::PublicKey::from_bytes(pk_next),
            mk_next,
            seeker_next,
            id,
        },
        origin_public_keys,
        timestamp_millis,
        seeker_secret,
    };
    proof {
        crate::wire::lemma_u64_be_surjective(bytes@.subrange(at as int, at + 8));
        crate::wire::lemma_u64_be_surjective(bytes@.subrange(at1 as int, at1 + 8));
        crate::wire::lemma_u64_be_surjective(bytes@.subrange(at2 as int, at2 + 8));
        crate::wire::lemma_u64_be_surjective(bytes@.subrange(at3 as int, at3 + 8));
        crate::wire::lemma_u64_be_surjective(bytes@.subrange(at4 as int, at4 + 8));
        crate::wire::lemma_u128_be_surjective(bytes@.subrange(at6 as int, at6 + 16));
        crate::wire::lemma_u64_be_surjective(bytes@.subrange(at7 as int, at7 + 8));
        assert(spec_enc_in_req(&req) =~= bytes@.subrange(at as int, at8 as int));
    }
    Some((req, at8))
}

/// Appends the encoding of an outgoing initiation request.
pub fn push_out_req(out: &mut Vec<u8>, r: &OutgoingInitiationRequest)
    ensures
        final(out)@ == old(out)@ + spec_enc_out_req(r),
{
    push_framed(out, r.agraphon_announcement.sk_next.as_bytes());
    push_framed(out, r.agraphon_announcement.mk_next.as_slice());
    push_framed(out, r.agraphon_announcement.seeker_next.as_slice());
    push_framed(out, r.agraphon_announcement.id.as_slice());
    push_framed(out, r.agraphon_announcement.announcement_bytes.as_slice());
    push_u128_be(out, r.timestamp_millis);
    push_framed(out, r.seeker_secret.as_slice());
    assert(out@ =~= old(out)@ + spec_enc_out_req(r));
}

/// Reads an outgoing initiation request.
#[verifier::rlimit(60)]
pub fn read_out_req(bytes: &[u8], at: usize) -> (r: Option<(OutgoingInitiationRequest, usize)>)
    ensures
        match r {
            Some((req, next)) => {
                &&& req.wf()
                &&& at <= next <= bytes@.len()
                &&& spec_enc_out_req(&req) =~= bytes@.subrange(at as int, next as int)
            },
            None => true,
        },
{
    let Some((sk_next, at1)) = read_framed(bytes, at) else {
        return None;
    };
    if sk_next.len() != kem::PRIVATE_KEY_SIZE {
        return None;
    }
    let Some((mk_next, at2)) = read_framed(bytes, at1) else {
        return None;
    };
    if mk_next.len() != MASTER_KEY_SIZE {
        return None;
    }
    let Some((seeker_next, at3)) = read_framed(bytes, at2) else {
        return None;
    };
    if seeker_next.len() != MASTER_KEY_SIZE {
        return None;
    }
    let Some((id, at4)) = read_framed(bytes, at3) else {
        return None;
    };
    if id.len() != MASTER_KEY_SIZE {
        return None;
    }
    let Some((announcement_bytes, at5)) = read_framed(bytes, at4) else {
        return None;
    };
    if bytes.len() - at5 < 16 {
        return None;
    }
    let timestamp_millis: u128 = read_u128_be(bytes, at5);
    let at6: usize = at5 + 16;
    let Some((seeker_secret, at7)) = read_framed(bytes, at6) else {
        return None;
    };
    if seeker_secret.len() != secondary::SECONDARY_SECRET_KEY_SIZE {
        return None;
    }
    let req = OutgoingInitiationRequest {
        agraphon_announcement: OutgoingAnnouncement {
            sk_next: kem::SecretKey::from_bytes(sk_next),
            mk_next,
            seeker_next,
            id,
            announcement_bytes,
        },
        timestamp_millis,
        seeker_secret,
    };
    proof {
        crate::wire::lemma_u64_be_surjective(bytes@.subrange(at as int, at + 8));
        crate::wire::lemma_u64_be_surjective(bytes@.subrange(at1 as int, at1 + 8));
        crate::wire::lemma_u64_be_surjective(bytes@.subrange(at2 as int, at2 + 8));
        crate::wire::lemma_u64_be_surjective(bytes@.subrange(at3 as int, at3 + 8));
        crate::wire::lemma_u64_be_surjective(bytes@.subrange(at4 as int, at4 + 8));
        crate::wire::lemma_u128_be_surjective(bytes@.subrange(at5 as int, at5 + 16));
        crate::wire::lemma_u64_be_surjective(bytes@.subrange(at6 as int, at6 + 8));
        assert(spec_enc_out_req(&req) =~= bytes@.subrange(at as int, at7 as int));
    }
    Some((req, at7))
}

} // verus!

//! The session layer: binds the ratchet to authenticated identities.
//!
//! It adds three things to the ratchet.  Padded serialization: every
//! payload is length-prefixed and filled with random bytes up to a multiple
//! of the padding block, hiding its length up to that granularity.
//! Ephemeral seeker signing keys: each board write is signed under a
//! one-shot secondary keypair whose hashed public key is the board key, so
//! board-level forgery is detectable without decrypting.  Replay binding:
//! the handshake wraps the announcement in an AuthBlob over the derived
//! authentication key, so a blob cannot be replayed into another
//! announcement.

use vstd::prelude::*;
use crate::PADDING_BLOCK_SIZE;
use crate::agraphon::Agraphon;
use crate::announcement::{
    IncomingAnnouncement, IncomingAnnouncementPrecursor, OutgoingAnnouncement,
    OutgoingAnnouncementPrecursor,
};
use crate::auth::{AuthBlob, UserPublicKeys, UserSecretKeys};
use crate::clock::timestamp_millis;
use crate::dsa;
use crate::kem;
use crate::rng::fill_random;
use crate::secondary;
use crate::wire::{
    copy_range, eq_bytes, push_bytes, push_framed, push_u128_be, read_framed, read_u128_be,
    spec_framed, spec_u128_be, spec_u128_from_be,
};

verus! {

/// Domain tag that ends every seeker board key.
pub const SEEKER_DOMAIN_TAG: u8 = 1;

/// A payload padded to a multiple of the block size: its length prefix and
/// content are fixed, the random fill after them is not.
pub open spec fn spec_padded_wf(padded: Seq<u8>, data: Seq<u8>) -> bool {
    &&& padded.len() as int % (PADDING_BLOCK_SIZE as int) == 0
    &&& padded.len() >= 8 + data.len()
    &&& padded.subrange(0, 8) == crate::wire::spec_u64_be(data.len() as u64)
    &&& padded.subrange(8, 8 + data.len() as int) == data
}

/// What unpadding yields: the slice named by the length prefix, or nothing
/// if the prefix overruns the input.
pub open spec fn spec_unpad(padded: Seq<u8>) -> Option<Seq<u8>> {
    if padded.len() >= 8 && 8 + crate::wire::spec_u64_from_be(padded.subrange(0, 8))
        <= padded.len() {
        Some(
            padded.subrange(
                8,
                8 + crate::wire::spec_u64_from_be(padded.subrange(0, 8)) as int,
            ),
        )
    } else {
        None
    }
}

/// Pads a payload: a big-endian length prefix, the payload, then random
/// fill up to the next multiple of the padding block.  The random fill is
/// deliberate, so that ciphertexts of padding-only tails never coincide
/// with ones that carry data there.
pub fn pad_payload(data: &[u8]) -> (r: Vec<u8>)
    requires
        data@.len() + 8 + PADDING_BLOCK_SIZE <= usize::MAX,
    ensures
        spec_padded_wf(r@, data@),
        r@.len() as int % (PADDING_BLOCK_SIZE as int) == 0,
        r@.len() <= data@.len() + 8 + PADDING_BLOCK_SIZE,
{
    let n: usize = data.len();
    let raw: usize = n + 8;
    let blocks: usize = (raw + PADDING_BLOCK_SIZE - 1) / PADDING_BLOCK_SIZE;
    let target: usize = blocks * PADDING_BLOCK_SIZE;
    proof {
        assert(target as int % (PADDING_BLOCK_SIZE as int) == 0) by (nonlinear_arith)
            requires
                target == blocks * PADDING_BLOCK_SIZE,
                PADDING_BLOCK_SIZE == 512,
        ;
        assert(raw <= target && target < raw + PADDING_BLOCK_SIZE) by (nonlinear_arith)
            requires
                blocks == (raw + PADDING_BLOCK_SIZE - 1) as int / (PADDING_BLOCK_SIZE as int),
                target == blocks * PADDING_BLOCK_SIZE,
                PADDING_BLOCK_SIZE == 512,
                raw >= 8,
        ;
    }
    let mut out: Vec<u8> = Vec::new();
    crate::wire::push_u64_be(&mut out, n as u64);
    push_bytes(&mut out, data);
    let fill = fill_random(target - raw);
    push_bytes(&mut out, fill.as_slice());
    proof {
        crate::wire::lemma_u64_be_roundtrip(n as u64);
        assert(out@.subrange(0, 8) =~= crate::wire::spec_u64_be(n as u64));
        assert(out@.subrange(8, 8 + n as int) =~= data@);
    }
    out
}

/// Unpads a payload: reads the length prefix and slices the content,
/// discarding the fill.  Fails exactly when the prefix overruns the input.
pub fn unpad_payload(padded: &[u8]) -> (r: Option<Vec<u8>>)
    ensures
        match r {
            Some(data) => spec_unpad(padded@) == Some(data@),
            None => spec_unpad(padded@) is None,
        },
{
    let total: usize = padded.len();
    if total < 8 {
        return None;
    }
    let len64: u64 = crate::wire::read_u64_be(padded, 0);
    if len64 > (usize::MAX - 8) as u64 {
        proof {
            assert(8 + crate::wire::spec_u64_from_be(padded@.subrange(0, 8)) > padded@.len());
        }
        return None;
    }
    let len: usize = len64 as usize;
    if total - 8 < len {
        return None;
    }
    Some(copy_range(padded, 8, len))
}

/// Unpadding a padded payload gives back the payload, whatever the fill.
pub proof fn lemma_pad_roundtrip(padded: Seq<u8>, data: Seq<u8>)
    requires
        spec_padded_wf(padded, data),
        data.len() <= u64::MAX,
    ensures
        spec_unpad(padded) == Some(data),
{
    crate::wire::lemma_u64_be_roundtrip(data.len() as u64);
}

/// The wire encoding of a session message: timestamp, the sender's next
/// seeker secret key, and the payload.
pub open spec fn spec_message_enc(timestamp: u128, seeker_next: Seq<u8>, contents: Seq<u8>) -> Seq<
    u8,
> {
    spec_u128_be(timestamp) + spec_framed(seeker_next) + spec_framed(contents)
}

/// Whether bytes decode as a session message: they are the encoding of
/// some timestamp, a seeker secret of the scheme's size, and a payload.
pub open spec fn spec_message_decodes(bytes: Seq<u8>) -> bool {
    exists|ts: u128, sn: Seq<u8>, c: Seq<u8>|
        bytes == #[trigger] spec_message_enc(ts, sn, c) && sn.len()
            == secondary::SECONDARY_SECRET_KEY_SIZE && sn.len() <= u64::MAX && c.len()
            <= u64::MAX
}

/// A decrypted session message.
pub struct Message {
    /// Milliseconds since the Unix epoch at sending time.
    pub timestamp: u128,
    /// The sender's next seeker secret key.
    pub seeker_next: Vec<u8>,
    /// The payload handed in by the application.
    pub contents: Vec<u8>,
}

/// Encodes a session message.
pub fn encode_message(timestamp: u128, seeker_next: &[u8], contents: &[u8]) -> (r: Vec<u8>)
    ensures
        r@ == spec_message_enc(timestamp, seeker_next@, contents@),
{
    let mut out: Vec<u8> = Vec::new();
    push_u128_be(&mut out, timestamp);
    push_framed(&mut out, seeker_next);
    push_framed(&mut out, contents);
    assert(out@ =~= spec_message_enc(timestamp, seeker_next@, contents@));
    out
}

/// Decodes a session message; fails on truncated input or trailing bytes.
pub fn decode_message(bytes: &[u8]) -> (r: Option<Message>)
    ensures
        match r {
            Some(m) => {
                &&& bytes@ == spec_message_enc(m.timestamp, m.seeker_next@, m.contents@)
                &&& m.seeker_next@.len() == secondary::SECONDARY_SECRET_KEY_SIZE
            },
            None => true,
        },
        forall|ts: u128, sn: Seq<u8>, c: Seq<u8>|
            (bytes@ == #[trigger] spec_message_enc(ts, sn, c) && sn.len()
                == secondary::SECONDARY_SECRET_KEY_SIZE && sn.len() <= u64::MAX && c.len()
                <= u64::MAX) ==> r is Some,
{
    let total: usize = bytes.len();
    if total < 16 {
        return None;
    }
    let timestamp: u128 = read_u128_be(bytes, 0);
    let Some((seeker_next, after_seeker)) = read_framed(bytes, 16) else {
        proof {
            lemma_message_frames(bytes@);
        }
        return None;
    };
    if seeker_next.len() != secondary::SECONDARY_SECRET_KEY_SIZE {
        proof {
            lemma_message_frames(bytes@);
        }
        return None;
    }
    let Some((contents, end)) = read_framed(bytes, after_seeker) else {
        proof {
            lemma_message_frames(bytes@);
        }
        return None;
    };
    if end != total {
        proof {
            lemma_message_frames(bytes@);
        }
        return None;
    }
    proof {
        crate::wire::lemma_u128_be_surjective(bytes@.subrange(0, 16));
        crate::wire::lemma_u64_be_surjective(bytes@.subrange(16, 24));
        crate::wire::lemma_u64_be_surjective(bytes@.subrange(24 + seeker_next@.len() as int, 32
            + seeker_next@.len() as int));
        assert(bytes@ =~= spec_message_enc(timestamp, seeker_next@, contents@));
    }
    Some(Message { timestamp, seeker_next, contents })
}

/// Field layout of an encoded message, for both directions of the codec
/// proof.
proof fn lemma_message_frames(bytes: Seq<u8>)
    ensures
        forall|ts: u128, sn: Seq<u8>, c: Seq<u8>|
            (bytes == #[trigger] spec_message_enc(ts, sn, c) && sn.len() <= u64::MAX && c.len()
                <= u64::MAX) ==> {
                &&& bytes.len() == 16 + 8 + sn.len() + 8 + c.len()
                &&& bytes.subrange(0, 16) == spec_u128_be(ts)
                &&& spec_u128_from_be(bytes.subrange(0, 16)) == ts
                &&& bytes.subrange(16, 24) == crate::wire::spec_u64_be(sn.len() as u64)
                &&& crate::wire::spec_u64_from_be(bytes.subrange(16, 24)) == sn.len()
                &&& bytes.subrange(24, 24 + sn.len() as int) == sn
                &&& bytes.subrange(24 + sn.len() as int, 32 + sn.len() as int)
                    == crate::wire::spec_u64_be(c.len() as u64)
                &&& crate::wire::spec_u64_from_be(
                    bytes.subrange(24 + sn.len() as int, 32 + sn.len() as int),
                ) == c.len()
                &&& bytes.subrange(32 + sn.len() as int, bytes.len() as int) == c
            },
{
    assert forall|ts: u128, sn: Seq<u8>, c: Seq<u8>|
        (bytes == #[trigger] spec_message_enc(ts, sn, c) && sn.len() <= u64::MAX && c.len()
            <= u64::MAX) implies {
        &&& bytes.len() == 16 + 8 + sn.len() + 8 + c.len()
        &&& bytes.subrange(0, 16) == spec_u128_be(ts)
        &&& spec_u128_from_be(bytes.subrange(0, 16)) == ts
        &&& bytes.subrange(16, 24) == crate::wire::spec_u64_be(sn.len() as u64)
        &&& crate::wire::spec_u64_from_be(bytes.subrange(16, 24)) == sn.len()
        &&& bytes.subrange(24, 24 + sn.len() as int) == sn
        &&& bytes.subrange(24 + sn.len() as int, 32 + sn.len() as int) == crate::wire::spec_u64_be(
            c.len() as u64,
        )
        &&& crate::wire::spec_u64_from_be(
            bytes.subrange(24 + sn.len() as int, 32 + sn.len() as int),
        ) == c.len()
        &&& bytes.subrange(32 + sn.len() as int, bytes.len() as int) == c
    } by {
        crate::wire::lemma_u128_be_roundtrip(ts);
        crate::wire::lemma_u64_be_roundtrip(sn.len() as u64);
        crate::wire::lemma_u64_be_roundtrip(c.len() as u64);
        assert(bytes.subrange(0, 16) =~= spec_u128_be(ts));
        assert(bytes.subrange(16, 24) =~= crate::wire::spec_u64_be(sn.len() as u64));
        assert(bytes.subrange(24, 24 + sn.len() as int) =~= sn);
        assert(bytes.subrange(24 + sn.len() as int, 32 + sn.len() as int)
            =~= crate::wire::spec_u64_be(c.len() as u64));
        assert(bytes.subrange(32 + sn.len() as int, bytes.len() as int) =~= c);
    }
}

/// The wire encoding of an AuthBlob.
pub open spec fn spec_authblob_enc(
    dsa_vk: Seq<u8>,
    kem_pk: Seq<u8>,
    sec_pk: Seq<u8>,
    payload: Seq<u8>,
    sig_dsa: Seq<u8>,
    sig_sec: Seq<u8>,
) -> Seq<u8> {
    spec_framed(dsa_vk) + spec_framed(kem_pk) + spec_framed(sec_pk) + spec_framed(payload)
        + spec_framed(sig_dsa) + spec_framed(sig_sec)
}

/// Encodes an AuthBlob for the announcement payload.
pub fn encode_authblob(blob: &AuthBlob) -> (r: Vec<u8>)
    ensures
        r@ == spec_authblob_enc(
            blob.public_keys.dsa_verification_key@,
            blob.public_keys.kem_public_key@,
            blob.public_keys.secondary_public_key@,
            blob.public_payload@,
            blob.signature_dsa@,
            blob.signature_secondary@,
        ),
{
    let mut out: Vec<u8> = Vec::new();
    push_framed(&mut out, blob.public_keys.dsa_verification_key.as_bytes());
    push_framed(&mut out, blob.public_keys.kem_public_key.as_bytes());
    push_framed(&mut out, blob.public_keys.secondary_public_key.as_slice());
    push_framed(&mut out, blob.public_payload.as_slice());
    push_framed(&mut out, blob.signature_dsa.as_bytes());
    push_framed(&mut out, blob.signature_secondary.as_slice());
    assert(out@ =~= spec_authblob_enc(
        blob.public_keys.dsa_verification_key@,
        blob.public_keys.kem_public_key@,
        blob.public_keys.secondary_public_key@,
        blob.public_payload@,
        blob.signature_dsa@,
        blob.signature_secondary@,
    ));
    out
}

/// Field layout of an encoded AuthBlob with scheme-sized parts: every
/// length prefix reads back its part's size, every part sits at its fixed
/// offset (only the public payload's length varies), and the total length
/// is determined.
#[verifier::rlimit(100)]
#[verifier::spinoff_prover]
proof fn lemma_authblob_frames(bytes: Seq<u8>)
    ensures
        forall|vk: Seq<u8>, kp: Seq<u8>, sp: Seq<u8>, pl: Seq<u8>, s1: Seq<u8>, s2: Seq<u8>|
            #![trigger spec_authblob_enc(vk, kp, sp, pl, s1, s2)]
            (bytes == spec_authblob_enc(vk, kp, sp, pl, s1, s2) && vk.len()
                == dsa::VERIFICATION_KEY_SIZE && kp.len() == kem::PUBLIC_KEY_SIZE && sp.len()
                == secondary::SECONDARY_PUBLIC_KEY_SIZE && s1.len() == dsa::SIGNATURE_SIZE
                && s2.len() == secondary::SECONDARY_SIGNATURE_SIZE && pl.len() <= u64::MAX)
                ==> {
                let p = pl.len() as int;
                &&& bytes.len() == 6589 + p
                &&& crate::wire::spec_u64_from_be(bytes.subrange(0, 8)) == vk.len()
                &&& bytes.subrange(8, 1960) == vk
                &&& crate::wire::spec_u64_from_be(bytes.subrange(1960, 1968)) == kp.len()
                &&& bytes.subrange(1968, 3152) == kp
                &&& crate::wire::spec_u64_from_be(bytes.subrange(3152, 3160)) == sp.len()
                &&& bytes.subrange(3160, 3192) == sp
                &&& crate::wire::spec_u64_from_be(bytes.subrange(3192, 3200)) == pl.len()
                &&& bytes.subrange(3200, 3200 + p) == pl
                &&& crate::wire::spec_u64_from_be(bytes.subrange(3200 + p, 3208 + p)) == s1.len()
                &&& bytes.subrange(3208 + p, 6517 + p) == s1
                &&& crate::wire::spec_u64_from_be(bytes.subrange(6517 + p, 6525 + p)) == s2.len()
                &&& bytes.subrange(6525 + p, 6589 + p) == s2
            },
{
    assert forall|vk: Seq<u8>, kp: Seq<u8>, sp: Seq<u8>, pl: Seq<u8>, s1: Seq<u8>, s2: Seq<u8>|
        #![trigger spec_authblob_enc(vk, kp, sp, pl, s1, s2)]
        (bytes == spec_authblob_enc(vk, kp, sp, pl, s1, s2) && vk.len()
            == dsa::VERIFICATION_KEY_SIZE && kp.len() == kem::PUBLIC_KEY_SIZE && sp.len()
            == secondary::SECONDARY_PUBLIC_KEY_SIZE && s1.len() == dsa::SIGNATURE_SIZE && s2.len()
            == secondary::SECONDARY_SIGNATURE_SIZE && pl.len() <= u64::MAX) implies {
        let p = pl.len() as int;
        &&& bytes.len() == 6589 + p
        &&& crate::wire::spec_u64_from_be(bytes.subrange(0, 8)) == vk.len()
        &&& bytes.subrange(8, 1960) == vk
        &&& crate::wire::spec_u64_from_be(bytes.subrange(1960, 1968)) == kp.len()
        &&& bytes.subrange(1968, 3152) == kp
        &&& crate::wire::spec_u64_from_be(bytes.subrange(3152, 3160)) == sp.len()
        &&& bytes.subrange(3160, 3192) == sp
        &&& crate::wire::spec_u64_from_be(bytes.subrange(3192, 3200)) == pl.len()
        &&& bytes.subrange(3200, 3200 + p) == pl
        &&& crate::wire::spec_u64_from_be(bytes.subrange(3200 + p, 3208 + p)) == s1.len()
        &&& bytes.subrange(3208 + p, 6517 + p) == s1
        &&& crate::wire::spec_u64_from_be(bytes.subrange(6517 + p, 6525 + p)) == s2.len()
        &&& bytes.subrange(6525 + p, 6589 + p) == s2
    } by {
        let p = pl.len() as int;
        crate::wire::lemma_u64_be_roundtrip(vk.len() as u64);
        crate::wire::lemma_u64_be_roundtrip(kp.len() as u64);
        crate::wire::lemma_u64_be_roundtrip(sp.len() as u64);
        crate::wire::lemma_u64_be_roundtrip(pl.len() as u64);
        crate::wire::lemma_u64_be_roundtrip(s1.len() as u64);
        crate::wire::lemma_u64_be_roundtrip(s2.len() as u64);
        assert(bytes.subrange(0, 8) =~= crate::wire::spec_u64_be(vk.len() as u64));
        assert(bytes.subrange(8, 1960) =~= vk);
        assert(bytes.subrange(1960, 1968) =~= crate::wire::spec_u64_be(kp.len() as u64));
        assert(bytes.subrange(1968, 3152) =~= kp);
        assert(bytes.subrange(3152, 3160) =~= crate::wire::spec_u64_be(sp.len() as u64));
        assert(bytes.subrange(3160, 3192) =~= sp);
        assert(bytes.subrange(3192, 3200) =~= crate::wire::spec_u64_be(pl.len() as u64));
        assert(bytes.subrange(3200, 3200 + p) =~= pl);
        assert(bytes.subrange(3200 + p, 3208 + p) =~= crate::wire::spec_u64_be(s1.len() as u64));
        assert(bytes.subrange(3208 + p, 6517 + p) =~= s1);
        assert(bytes.subrange(6517 + p, 6525 + p) =~= crate::wire::spec_u64_be(s2.len() as u64));
        assert(bytes.subrange(6525 + p, 6589 + p) =~= s2);
    }
}

/// Two AuthBlobs with scheme-sized parts and the same encoding hold the
/// same values.
proof fn lemma_authblob_enc_injective(bb: Seq<u8>, a: &AuthBlob, b: &AuthBlob)
    requires
        a.wf(),
        b.wf(),
        a.public_payload@.len() <= u64::MAX,
        b.public_payload@.len() <= u64::MAX,
        bb == spec_authblob_enc(
            a.public_keys.dsa_verification_key@,
            a.public_keys.kem_public_key@,
            a.public_keys.secondary_public_key@,
            a.public_payload@,
            a.signature_dsa@,
            a.signature_secondary@,
        ),
        bb == spec_authblob_enc(
            b.public_keys.dsa_verification_key@,
            b.public_keys.kem_public_key@,
            b.public_keys.secondary_public_key@,
            b.public_payload@,
            b.signature_dsa@,
            b.signature_secondary@,
        ),
    ensures
        a.public_keys.dsa_verification_key@ == b.public_keys.dsa_verification_key@,
        a.public_keys.kem_public_key@ == b.public_keys.kem_public_key@,
        a.public_keys.secondary_public_key@ == b.public_keys.secondary_public_key@,
        a.public_payload@ == b.public_payload@,
        a.signature_dsa@ == b.signature_dsa@,
        a.signature_secondary@ == b.signature_secondary@,
{
    lemma_authblob_frames(bb);
    assert(bb.len() == 6589 + a.public_payload@.len());
    assert(bb.len() == 6589 + b.public_payload@.len());
}

/// Decodes an AuthBlob; fails exactly on truncated input, trailing bytes,
/// or parts whose sizes do not match their schemes.
#[verifier::rlimit(60)]
pub fn decode_authblob(bytes: &[u8]) -> (r: Option<AuthBlob>)
    ensures
        forall|vk: Seq<u8>, kp: Seq<u8>, sp: Seq<u8>, pl: Seq<u8>, s1: Seq<u8>, s2: Seq<u8>|
            (bytes@ == #[trigger] spec_authblob_enc(vk, kp, sp, pl, s1, s2) && vk.len()
                == dsa::VERIFICATION_KEY_SIZE && kp.len() == kem::PUBLIC_KEY_SIZE && sp.len()
                == secondary::SECONDARY_PUBLIC_KEY_SIZE && s1.len() == dsa::SIGNATURE_SIZE
                && s2.len() == secondary::SECONDARY_SIGNATURE_SIZE && pl.len() <= u64::MAX)
                ==> r is Some,
        match r {
            Some(blob) => {
                &&& blob.wf()
                &&& bytes@ == spec_authblob_enc(
                    blob.public_keys.dsa_verification_key@,
                    blob.public_keys.kem_public_key@,
                    blob.public_keys.secondary_public_key@,
                    blob.public_payload@,
                    blob.signature_dsa@,
                    blob.signature_secondary@,
                )
            },
            None => true,
        },
{
    proof {
        lemma_authblob_frames(bytes@);
    }
    let Some((dsa_vk, at1)) = read_framed(bytes, 0) else {
        return None;
    };
    if dsa_vk.len() != dsa::VERIFICATION_KEY_SIZE {
        return None;
    }
    let Some((kem_pk, at2)) = read_framed(bytes, at1) else {
        return None;
    };
    if kem_pk.len() != kem::PUBLIC_KEY_SIZE {
        return None;
    }
    let Some((sec_pk, at3)) = read_framed(bytes, at2) else {
        return None;
    };
    if sec_pk.len() != secondary::SECONDARY_PUBLIC_KEY_SIZE {
        return None;
    }
    let Some((payload, at4)) = read_framed(bytes, at3) else {
        return None;
    };
    let Some((sig_dsa, at5)) = read_framed(bytes, at4) else {
        return None;
    };
    if sig_dsa.len() != dsa::SIGNATURE_SIZE {
        return None;
    }
    let Some((sig_sec, at6)) = read_framed(bytes, at5) else {
        return None;
    };
    if sig_sec.len() != secondary::SECONDARY_SIGNATURE_SIZE {
        return None;
    }
    if at6 != bytes.len() {
        return None;
    }
    let blob = AuthBlob {
        public_keys: UserPublicKeys {
            dsa_verification_key: dsa::VerificationKey::from_bytes(dsa_vk),
            kem_public_key: kem::PublicKey::from_bytes(kem_pk),
            secondary_public_key: sec_pk,
        },
        public_payload: payload,
        signature_dsa: dsa::Signature::from_bytes(sig_dsa),
        signature_secondary: sig_sec,
    };
    proof {
        crate::wire::lemma_u64_be_surjective(bytes@.subrange(0, 8));
        crate::wire::lemma_u64_be_surjective(bytes@.subrange(at1 as int, at1 + 8));
        crate::wire::lemma_u64_be_surjective(bytes@.subrange(at2 as int, at2 + 8));
        crate::wire::lemma_u64_be_surjective(bytes@.subrange(at3 as int, at3 + 8));
        crate::wire::lemma_u64_be_surjective(bytes@.subrange(at4 as int, at4 + 8));
        crate::wire::lemma_u64_be_surjective(bytes@.subrange(at5 as int, at5 + 8));
        assert(bytes@ =~= spec_authblob_enc(
            blob.public_keys.dsa_verification_key@,
            blob.public_keys.kem_public_key@,
            blob.public_keys.secondary_public_key@,
            blob.public_payload@,
            blob.signature_dsa@,
            blob.signature_secondary@,
        ));
    }
    Some(blob)
}

/// The wire encoding of the session initiation payload carried inside the
/// AuthBlob: the initiator's first seeker secret key and a timestamp.
pub open spec fn spec_init_payload_enc(timestamp: u128, seeker_secret: Seq<u8>) -> Seq<u8> {
    spec_u128_be(timestamp) + spec_framed(seeker_secret)
}

/// Encodes the session initiation payload.
pub fn encode_init_payload(timestamp: u128, seeker_secret: &[u8]) -> (r: Vec<u8>)
    ensures
        r@ == spec_init_payload_enc(timestamp, seeker_secret@),
{
    let mut out: Vec<u8> = Vec::new();
    push_u128_be(&mut out, timestamp);
    push_framed(&mut out, seeker_secret);
    assert(out@ =~= spec_init_payload_enc(timestamp, seeker_secret@));
    out
}

/// Decodes the session initiation payload.
pub fn decode_init_payload(bytes: &[u8]) -> (r: Option<(u128, Vec<u8>)>)
    ensures
        match r {
            Some((ts, secret)) => {
                &&& bytes@ == spec_init_payload_enc(ts, secret@)
                &&& secret@.len() == secondary::SECONDARY_SECRET_KEY_SIZE
            },
            None => true,
        },
        forall|ts: u128, sn: Seq<u8>|
            (bytes@ == #[trigger] spec_init_payload_enc(ts, sn) && sn.len()
                == secondary::SECONDARY_SECRET_KEY_SIZE) ==> r is Some,
{
    let total: usize = bytes.len();
    if total < 16 {
        return None;
    }
    let timestamp: u128 = read_u128_be(bytes, 0);
    let parsed = read_framed(bytes, 16);
    proof {
        assert forall|ts: u128, sn: Seq<u8>|
            (bytes@ == #[trigger] spec_init_payload_enc(ts, sn) && sn.len()
                == secondary::SECONDARY_SECRET_KEY_SIZE) implies {
            &&& crate::wire::spec_u64_from_be(bytes@.subrange(16, 24)) == sn.len()
            &&& bytes@.len() == 24 + sn.len()
            &&& bytes@.subrange(24, bytes@.len() as int) == sn
            &&& spec_u128_from_be(bytes@.subrange(0, 16)) == ts
        } by {
            crate::wire::lemma_u128_be_roundtrip(ts);
            crate::wire::lemma_u64_be_roundtrip(sn.len() as u64);
            assert(bytes@.subrange(0, 16) =~= spec_u128_be(ts));
            assert(bytes@.subrange(16, 24) =~= crate::wire::spec_u64_be(sn.len() as u64));
            assert(bytes@.subrange(24, bytes@.len() as int) =~= sn);
        }
    }
    let Some((secret, end)) = parsed else {
        return None;
    };
    if secret.len() != secondary::SECONDARY_SECRET_KEY_SIZE {
        return None;
    }
    if end != total {
        return None;
    }
    proof {
        crate::wire::lemma_u128_be_surjective(bytes@.subrange(0, 16));
        crate::wire::lemma_u64_be_surjective(bytes@.subrange(16, 24));
        assert(bytes@ =~= spec_init_payload_enc(timestamp, secret@));
    }
    Some((timestamp, secret))
}

/// The board key of a message: the hashed seeker public key with a length
/// prefix and a domain tag.
pub open spec fn spec_seeker_bytes(seeker_pk: Seq<u8>) -> Seq<u8> {
    seq![secondary::HASH_SIZE as u8] + secondary::hash32_of(seeker_pk) + seq![SEEKER_DOMAIN_TAG]
}

/// Computes the board key for a seeker public key.
pub fn compute_seeker(seeker_pk: &[u8]) -> (r: Vec<u8>)
    ensures
        r@ == spec_seeker_bytes(seeker_pk@),
        r@.len() == secondary::HASH_SIZE + 2,
{
    let hash = secondary::hash32(seeker_pk);
    let mut out: Vec<u8> = Vec::new();
    out.push(secondary::HASH_SIZE as u8);
    push_bytes(&mut out, hash.as_slice());
    out.push(SEEKER_DOMAIN_TAG);
    assert(out@ =~= spec_seeker_bytes(seeker_pk@));
    out
}

/// What a board write signs: the length-prefixed board key followed by the
/// ratchet ciphertext.
pub open spec fn spec_seeker_signed_data(seeker: Seq<u8>, message: Seq<u8>) -> Seq<u8> {
    seq![seeker.len() as u8] + seeker + message
}

/// Assembles the bytes that a board write signs.
pub fn compute_seeker_data_to_sign(datastore_key: &[u8], message_bytes: &[u8]) -> (r: Vec<u8>)
    requires
        datastore_key@.len() <= 255,
    ensures
        r@ == spec_seeker_signed_data(datastore_key@, message_bytes@),
{
    let mut out: Vec<u8> = Vec::new();
    out.push(datastore_key.len() as u8);
    push_bytes(&mut out, datastore_key);
    push_bytes(&mut out, message_bytes);
    assert(out@ =~= spec_seeker_signed_data(datastore_key@, message_bytes@));
    out
}

/// Output from sending a message: the board key, the blob to post under
/// it, and the send timestamp.
pub struct SendOutgoingMessageOutput {
    /// Milliseconds since the Unix epoch at sending time.
    pub timestamp: u128,
    /// The board key under which to post.
    pub seeker: Vec<u8>,
    /// The signed, encrypted blob to post.
    pub data: Vec<u8>,
}

/// Output from successfully receiving a message.
pub struct FeedIncomingMessageOutput {
    /// The sender's timestamp.
    pub timestamp: u128,
    /// The decrypted payload.
    pub message: Vec<u8>,
    /// Board keys of our own messages this message acknowledged; the
    /// caller may garbage-collect those board entries.
    pub newly_acknowledged_self_seekers: Vec<Vec<u8>>,
}

/// Whether `req` is exactly what parsing and authenticating announcement
/// bytes with the given static KEM keys yields: the ratchet precursor's
/// deterministic parse, the unpadded AuthBlob that verifies against the
/// announcement's derived authentication key, and the initiation payload
/// carried in its public payload.
pub open spec fn spec_parsed_request_with(
    bytes: Seq<u8>,
    our_kem_pk: Seq<u8>,
    our_kem_sk: Seq<u8>,
    req: &IncomingInitiationRequest,
    precursor: &IncomingAnnouncementPrecursor,
    blob: &AuthBlob,
) -> bool {
    &&& bytes.len() >= crate::announcement::ANNOUNCEMENT_MIN_SIZE
    &&& precursor.spec_parsed_from(bytes, our_kem_pk, our_kem_sk)
    &&& blob.wf()
    &&& blob.public_payload@.len() <= u64::MAX
    &&& blob.spec_accepts(precursor.auth_key@)
    &&& spec_unpad(precursor.auth_payload@) matches Some(bb) && bb == spec_authblob_enc(
        blob.public_keys.dsa_verification_key@,
        blob.public_keys.kem_public_key@,
        blob.public_keys.secondary_public_key@,
        blob.public_payload@,
        blob.signature_dsa@,
        blob.signature_secondary@,
    )
    &&& blob.public_payload@ == spec_init_payload_enc(req.timestamp_millis, req.seeker_secret@)
    &&& req.seeker_secret@.len() == secondary::SECONDARY_SECRET_KEY_SIZE
    &&& req.origin_public_keys.dsa_verification_key@ == blob.public_keys.dsa_verification_key@
    &&& req.origin_public_keys.kem_public_key@ == blob.public_keys.kem_public_key@
    &&& req.origin_public_keys.secondary_public_key@ == blob.public_keys.secondary_public_key@
    &&& req.agraphon_announcement.pk_peer@ == blob.public_keys.kem_public_key@
    &&& req.agraphon_announcement.pk_next@ == precursor.pk_next@
    &&& req.agraphon_announcement.id@ == precursor.id@
}

pub open spec fn spec_parsed_request(
    bytes: Seq<u8>,
    our_kem_pk: Seq<u8>,
    our_kem_sk: Seq<u8>,
    req: &IncomingInitiationRequest,
) -> bool {
    exists|precursor: IncomingAnnouncementPrecursor, blob: AuthBlob|
        #[trigger] spec_parsed_request_with(bytes, our_kem_pk, our_kem_sk, req, &precursor, &blob)
}

/// A parsed incoming session initiation request: the peer's announcement,
/// verified identity, initial seeker key and claimed timestamp.
pub struct IncomingInitiationRequest {
    /// The finalized ratchet announcement.
    pub agraphon_announcement: IncomingAnnouncement,
    /// The peer's verified public keys.
    pub origin_public_keys: UserPublicKeys,
    /// The timestamp the peer embedded in the announcement.
    pub timestamp_millis: u128,
    /// The peer's initial seeker secret key.
    pub seeker_secret: Vec<u8>,
}

impl IncomingInitiationRequest {
    /// Structural soundness of the parts.
    pub open spec fn wf(&self) -> bool {
        &&& self.agraphon_announcement.wf()
        &&& self.origin_public_keys.wf()
        &&& self.seeker_secret@.len() == secondary::SECONDARY_SECRET_KEY_SIZE
    }

    /// Parses and authenticates announcement bytes: decrypts the ratchet
    /// announcement with our static KEM keys, decodes the padded AuthBlob
    /// from its payload, verifies the blob against the announcement's
    /// derived authentication key, decodes the initiation payload, and
    /// finalizes the announcement with the sender's verified KEM key.
    /// Fails on malformed bytes and on any verification failure; the blob
    /// accepted is exactly one that verifies against this announcement's
    /// authentication key, which is what defeats replays into other
    /// announcements.
    #[verifier::rlimit(100)]
    pub fn try_from(bytes: &[u8], our_pk: &UserPublicKeys, our_sk: &UserSecretKeys) -> (r: Option<
        IncomingInitiationRequest,
    >)
        requires
            our_pk.wf(),
            our_sk.kem_secret_key.wf(),
        ensures
            (exists|req: IncomingInitiationRequest|
                #[trigger] spec_parsed_request(
                    bytes@,
                    our_pk.kem_public_key@,
                    our_sk.kem_secret_key@,
                    &req,
                )) ==> r is Some,
            match r {
                Some(req) => {
                    &&& req.wf()
                    &&& spec_parsed_request(
                        bytes@,
                        our_pk.kem_public_key@,
                        our_sk.kem_secret_key@,
                        &req,
                    )
                },
                None => true,
            },
    {
        let ghost pkv = our_pk.kem_public_key@;
        let ghost skv = our_sk.kem_secret_key@;
        let precursor = match IncomingAnnouncementPrecursor::try_from_incoming_announcement_bytes(
            bytes,
            &our_pk.kem_public_key,
            &our_sk.kem_secret_key,
        ) {
            Some(p) => p,
            None => {
                proof {
                    if exists|req: IncomingInitiationRequest|
                        spec_parsed_request(bytes@, pkv, skv, &req) {
                        let req = choose|req: IncomingInitiationRequest|
                            spec_parsed_request(bytes@, pkv, skv, &req);
                        let (pw, bw) = choose|
                            pw: IncomingAnnouncementPrecursor,
                            bw: AuthBlob,
                        | spec_parsed_request_with(bytes@, pkv, skv, &req, &pw, &bw);
                        assert(false);
                    }
                }
                return None;
            },
        };
        let ghost pre0 = precursor;
        let blob_bytes = match unpad_payload(precursor.auth_payload()) {
            Some(b) => b,
            None => {
                proof {
                    if exists|req: IncomingInitiationRequest|
                        spec_parsed_request(bytes@, pkv, skv, &req) {
                        let req = choose|req: IncomingInitiationRequest|
                            spec_parsed_request(bytes@, pkv, skv, &req);
                        let (pw, bw) = choose|
                            pw: IncomingAnnouncementPrecursor,
                            bw: AuthBlob,
                        | spec_parsed_request_with(bytes@, pkv, skv, &req, &pw, &bw);
                        assert(pw.auth_payload@ == pre0.auth_payload@);
                        assert(false);
                    }
                }
                return None;
            },
        };
        let blob = match decode_authblob(blob_bytes.as_slice()) {
            Some(b) => b,
            None => {
                proof {
                    if exists|req: IncomingInitiationRequest|
                        spec_parsed_request(bytes@, pkv, skv, &req) {
                        let req = choose|req: IncomingInitiationRequest|
                            spec_parsed_request(bytes@, pkv, skv, &req);
                        let (pw, bw) = choose|
                            pw: IncomingAnnouncementPrecursor,
                            bw: AuthBlob,
                        | spec_parsed_request_with(bytes@, pkv, skv, &req, &pw, &bw);
                        assert(pw.auth_payload@ == pre0.auth_payload@);
                        assert(blob_bytes@ == spec_authblob_enc(
                            bw.public_keys.dsa_verification_key@,
                            bw.public_keys.kem_public_key@,
                            bw.public_keys.secondary_public_key@,
                            bw.public_payload@,
                            bw.signature_dsa@,
                            bw.signature_secondary@,
                        ));
                        assert(false);
                    }
                }
                return None;
            },
        };
        let ghost blob0 = blob;
        let accepted = blob.verify(precursor.auth_key());
        if !accepted {
            proof {
                if exists|req: IncomingInitiationRequest|
                    spec_parsed_request(bytes@, pkv, skv, &req) {
                    let req = choose|req: IncomingInitiationRequest|
                        spec_parsed_request(bytes@, pkv, skv, &req);
                    let (pw, bw) = choose|
                        pw: IncomingAnnouncementPrecursor,
                        bw: AuthBlob,
                    | spec_parsed_request_with(bytes@, pkv, skv, &req, &pw, &bw);
                    assert(pw.auth_payload@ == pre0.auth_payload@);
                    assert(pw.auth_key@ == pre0.auth_key@);
                    vstd::std_specs::vec::axiom_spec_len(&blob0.public_payload);
                    lemma_authblob_enc_injective(blob_bytes@, &blob0, &bw);
                    assert(blob0.spec_accepts(pre0.auth_key@) == bw.spec_accepts(pw.auth_key@));
                    assert(false);
                }
            }
            return None;
        }
        let (timestamp_millis, seeker_secret) = match decode_init_payload(
            blob.public_payload(),
        ) {
            Some(p) => p,
            None => {
                proof {
                    if exists|req: IncomingInitiationRequest|
                        spec_parsed_request(bytes@, pkv, skv, &req) {
                        let req = choose|req: IncomingInitiationRequest|
                            spec_parsed_request(bytes@, pkv, skv, &req);
                        let (pw, bw) = choose|
                            pw: IncomingAnnouncementPrecursor,
                            bw: AuthBlob,
                        | spec_parsed_request_with(bytes@, pkv, skv, &req, &pw, &bw);
                        assert(pw.auth_payload@ == pre0.auth_payload@);
                        vstd::std_specs::vec::axiom_spec_len(&blob0.public_payload);
                        lemma_authblob_enc_injective(blob_bytes@, &blob0, &bw);
                        assert(blob0.public_payload@ == spec_init_payload_enc(
                            req.timestamp_millis,
                            req.seeker_secret@,
                        ));
                        assert(false);
                    }
                }
                return None;
            },
        };
        let origin_public_keys = blob.public_keys().duplicate();
        let peer_kem_pk = blob.public_keys().kem_public_key.duplicate();
        let announcement = match precursor.finalize(peer_kem_pk) {
            Some(a) => a,
            None => {
                return None;
            },
        };
        let req = IncomingInitiationRequest {
            agraphon_announcement: announcement,
            origin_public_keys,
            timestamp_millis,
            seeker_secret,
        };
        proof {
            vstd::std_specs::vec::axiom_spec_len(&blob0.public_payload);
            assert(spec_parsed_request_with(bytes@, pkv, skv, &req, &pre0, &blob0));
        }
        Some(req)
    }
}

/// An outgoing session initiation request: the announcement we produced,/// An outgoing session initiation request: the announcement we produced,
/// its timestamp, and the seeker secret key we embedded.
pub struct OutgoingInitiationRequest {
    /// The finalized ratchet announcement.
    pub agraphon_announcement: OutgoingAnnouncement,
    /// The timestamp embedded in the announcement.
    pub timestamp_millis: u128,
    /// Our initial seeker secret key for this session.
    pub seeker_secret: Vec<u8>,
}

impl OutgoingInitiationRequest {
    /// Structural soundness of the parts.
    pub open spec fn wf(&self) -> bool {
        &&& self.agraphon_announcement.wf()
        &&& self.seeker_secret@.len() == secondary::SECONDARY_SECRET_KEY_SIZE
    }

    /// What a successful build guarantees of the returned bytes and
    /// request.
    pub open spec fn spec_new_post(
        bytes: Seq<u8>,
        req: &OutgoingInitiationRequest,
        our_pk: &UserPublicKeys,
        our_sk: &UserSecretKeys,
        peer_pk: &UserPublicKeys,
    ) -> bool {
        &&& req.wf()
        &&& req.agraphon_announcement.announcement_bytes@ == bytes
        &&& bytes.len() >= crate::announcement::ANNOUNCEMENT_MIN_SIZE
        &&& exists|blob: AuthBlob, padded: Seq<u8>, enc_r: Seq<u8>|
            #[trigger] OutgoingInitiationRequest::spec_built_announcement(
                bytes,
                req,
                our_pk,
                our_sk,
                peer_pk.kem_public_key@,
                &blob,
                padded,
                enc_r,
            )
    }

    /// How a built announcement relates its wire bytes to the stored
    /// request: the bytes carry a ciphertext encapsulated to the peer's
    /// static key with randomness `enc_r` and the encryption of our fresh
    /// next public key followed by the padded AuthBlob `blob`; the blob
    /// carries our keys and the initiation payload of the request, and —
    /// for a matching, generated key bundle — verifies against this very
    /// announcement's derived authentication key.
    pub open spec fn spec_built_announcement(
        bytes: Seq<u8>,
        req: &OutgoingInitiationRequest,
        our_pk: &UserPublicKeys,
        our_sk: &UserSecretKeys,
        peer_kem_pk: Seq<u8>,
        blob: &AuthBlob,
        padded: Seq<u8>,
        enc_r: Seq<u8>,
    ) -> bool {
        let rand = crate::announcement::spec_ann_rand(bytes);
        let ct = crate::announcement::spec_ann_ct(bytes);
        let ss = kem::kem_encaps_ss(peer_kem_pk, enc_r);
        let pk_next = kem::kem_pk_of(req.agraphon_announcement.sk_next@);
        &&& bytes.len() >= crate::announcement::ANNOUNCEMENT_MIN_SIZE
        &&& ct == kem::kem_encaps_ct(peer_kem_pk, enc_r)
        &&& kem::spec_kem_generated(req.agraphon_announcement.sk_next@)
        &&& crate::announcement::spec_ann_body(bytes) == crate::cipher::spec_ctr_apply(
            crate::ratchet_kdf::spec_ann_root_key(rand, ss, ct, peer_kem_pk),
            crate::ratchet_kdf::spec_ann_root_nonce(rand, ss, ct, peer_kem_pk),
            pk_next + padded,
        )
        &&& spec_padded_wf(
            padded,
            spec_authblob_enc(
                blob.public_keys.dsa_verification_key@,
                blob.public_keys.kem_public_key@,
                blob.public_keys.secondary_public_key@,
                blob.public_payload@,
                blob.signature_dsa@,
                blob.signature_secondary@,
            ),
        )
        &&& blob.wf()
        &&& blob.public_keys.dsa_verification_key@ == our_pk.dsa_verification_key@
        &&& blob.public_keys.kem_public_key@ == our_pk.kem_public_key@
        &&& blob.public_keys.secondary_public_key@ == our_pk.secondary_public_key@
        &&& blob.public_payload@ == spec_init_payload_enc(
            req.timestamp_millis,
            req.seeker_secret@,
        )
        &&& (crate::auth::spec_keys_match(our_pk, our_sk) && dsa::spec_dsa_generated(
            our_sk.dsa_signing_key@,
        )) ==> blob.spec_accepts(
            crate::ratchet_kdf::spec_auth_key(
                crate::ratchet_kdf::spec_ann_root_pre(rand, ss, ct, peer_kem_pk),
                pk_next,
            ),
        )
        &&& req.agraphon_announcement.id@ == crate::ratchet_kdf::spec_ann_root_id(
            rand,
            ss,
            ct,
            peer_kem_pk,
        )
        &&& req.agraphon_announcement.mk_next@ == crate::ratchet_kdf::spec_integrity_mk(
            crate::ratchet_kdf::spec_ann_root_seed(rand, ss, ct, peer_kem_pk),
            pk_next,
            padded,
        )
        &&& req.agraphon_announcement.seeker_next@ == crate::ratchet_kdf::spec_integrity_seeker(
            crate::ratchet_kdf::spec_ann_root_seed(rand, ss, ct, peer_kem_pk),
            pk_next,
            padded,
        )
    }

    /// Builds an announcement to a peer: draws the ratchet precursor and a
    /// fresh seeker keypair, wraps the initiation payload in an AuthBlob
    /// bound to the announcement's authentication key, pads it, and
    /// finalizes the announcement bytes.  Fails only if signing fails.
    #[verifier::rlimit(100)]
    #[verifier::spinoff_prover]
    pub fn new(our_pk: &UserPublicKeys, our_sk: &UserSecretKeys, peer_pk: &UserPublicKeys) -> (r:
        Option<(Vec<u8>, OutgoingInitiationRequest)>)
        requires
            our_pk.wf(),
            our_sk.dsa_signing_key.wf(),
            our_sk.secondary_secret_key@.len() == secondary::SECONDARY_SECRET_KEY_SIZE,
            peer_pk.wf(),
        ensures
            match r {
                Some((bytes, req)) => OutgoingInitiationRequest::spec_new_post(
                    bytes@,
                    &req,
                    our_pk,
                    our_sk,
                    peer_pk,
                ),
                None => true,
            },
    {
        let timestamp_millis: u128 = timestamp_millis();
        let precursor = OutgoingAnnouncementPrecursor::new(&peer_pk.kem_public_key);
        let seeker_secret = fill_random(secondary::SECONDARY_SECRET_KEY_SIZE);
        let init_payload = encode_init_payload(timestamp_millis, seeker_secret.as_slice());
        let blob = match AuthBlob::new(
            our_pk.duplicate(),
            our_sk,
            init_payload,
            precursor.auth_key(),
        ) {
            Some(b) => b,
            None => {
                return None;
            },
        };
        let blob_bytes = encode_authblob(&blob);
        if blob_bytes.len() > usize::MAX - 8 - PADDING_BLOCK_SIZE {
            return None;
        }
        let padded = pad_payload(blob_bytes.as_slice());
        let ghost prec0 = precursor;
        let (announcement_bytes, announcement) = precursor.finalize(padded.as_slice());
        let req = OutgoingInitiationRequest {
            agraphon_announcement: announcement,
            timestamp_millis,
            seeker_secret,
        };
        proof {
            let pkv = peer_pk.kem_public_key@;
            let enc_r = choose|enc_r: Seq<u8>| prec0.spec_derived_with(pkv, enc_r);
            assert(prec0.spec_derived_with(pkv, enc_r));
            let bytes = announcement_bytes@;
            assert(crate::announcement::spec_ann_rand(bytes) =~= prec0.randomness@);
            assert(crate::announcement::spec_ann_ct(bytes) =~= prec0.kem_ct@);
            assert(crate::announcement::spec_ann_body(bytes) =~= crate::cipher::spec_ctr_apply(
                prec0.cipher_key@,
                prec0.cipher_nonce@,
                prec0.pk_next@ + padded@,
            ));
            assert(OutgoingInitiationRequest::spec_built_announcement(
                bytes,
                &req,
                our_pk,
                our_sk,
                pkv,
                &blob,
                padded@,
                enc_r,
            ));
            assert(OutgoingInitiationRequest::spec_new_post(
                announcement_bytes@,
                &req,
                our_pk,
                our_sk,
                peer_pk,
            ));
        }
        Some((announcement_bytes, req))
    }
}

/// Whether two incoming initiation requests hold the same values.
pub open spec fn spec_in_req_eq(a: &IncomingInitiationRequest, b: &IncomingInitiationRequest)
    -> bool {
    &&& a.agraphon_announcement.pk_peer@ == b.agraphon_announcement.pk_peer@
    &&& a.agraphon_announcement.pk_next@ == b.agraphon_announcement.pk_next@
    &&& a.agraphon_announcement.mk_next@ == b.agraphon_announcement.mk_next@
    &&& a.agraphon_announcement.seeker_next@ == b.agraphon_announcement.seeker_next@
    &&& a.agraphon_announcement.id@ == b.agraphon_announcement.id@
    &&& a.origin_public_keys.dsa_verification_key@ == b.origin_public_keys.dsa_verification_key@
    &&& a.origin_public_keys.kem_public_key@ == b.origin_public_keys.kem_public_key@
    &&& a.origin_public_keys.secondary_public_key@ == b.origin_public_keys.secondary_public_key@
    &&& a.timestamp_millis == b.timestamp_millis
    &&& a.seeker_secret@ == b.seeker_secret@
}

/// Whether two outgoing initiation requests hold the same values.
pub open spec fn spec_out_req_eq(a: &OutgoingInitiationRequest, b: &OutgoingInitiationRequest)
    -> bool {
    &&& a.agraphon_announcement.sk_next@ == b.agraphon_announcement.sk_next@
    &&& a.agraphon_announcement.mk_next@ == b.agraphon_announcement.mk_next@
    &&& a.agraphon_announcement.seeker_next@ == b.agraphon_announcement.seeker_next@
    &&& a.agraphon_announcement.id@ == b.agraphon_announcement.id@
    &&& a.agraphon_announcement.announcement_bytes@ == b.agraphon_announcement.announcement_bytes@
    &&& a.timestamp_millis == b.timestamp_millis
    &&& a.seeker_secret@ == b.seeker_secret@
}

/// Whether two posted board-key tables hold the same values.
pub open spec fn spec_posted_eq(a: Seq<(u64, Vec<u8>)>, b: Seq<(u64, Vec<u8>)>) -> bool {
    &&& a.len() == b.len()
    &&& forall|i: int|
        0 <= i < a.len() ==> (#[trigger] a[i]).0 == b[i].0 && a[i].1@ == b[i].1@
}

/// What splitting the posted board keys at an acknowledged parent leaves,
/// witnessed by the source index of every surviving and every returned
/// entry: kept entries are at or above the parent, returned board keys
/// come from entries strictly below it, and nothing is lost.
pub open spec fn spec_pruned(
    pre: Seq<(u64, Vec<u8>)>,
    kept: Seq<(u64, Vec<u8>)>,
    acked: Seq<Vec<u8>>,
    src_kept: Seq<int>,
    src_acked: Seq<int>,
    parent: u64,
) -> bool {
    &&& src_kept.len() == kept.len()
    &&& src_acked.len() == acked.len()
    &&& kept.len() + acked.len() == pre.len()
    &&& forall|i: int|
        #![trigger src_kept[i]]
        0 <= i < kept.len() ==> 0 <= src_kept[i] < pre.len() && pre[src_kept[i]].0 == kept[i].0
            && pre[src_kept[i]].1@ == kept[i].1@ && kept[i].0 >= parent
    &&& forall|i: int|
        #![trigger src_acked[i]]
        0 <= i < acked.len() ==> 0 <= src_acked[i] < pre.len() && pre[src_acked[i]].0 < parent
            && pre[src_acked[i]].1@ == acked[i]@
}

/// Splits the posted board keys at an acknowledged parent: entries strictly
/// below it are removed and their board keys returned for garbage
/// collection, with the ghost source index of every entry; the rest stay,
/// in order.
fn prune_posted(posted: &mut Vec<(u64, Vec<u8>)>, parent: u64) -> (r: (
    Vec<Vec<u8>>,
    Ghost<Seq<int>>,
    Ghost<Seq<int>>,
))
    ensures
        spec_pruned(old(posted)@, final(posted)@, r.0@, r.1@, r.2@, parent),
{
    let mut newly_acknowledged: Vec<Vec<u8>> = Vec::new();
    let mut kept: Vec<(u64, Vec<u8>)> = Vec::new();
    let ghost mut src_acked: Seq<int> = Seq::empty();
    let ghost mut src_kept: Seq<int> = Seq::empty();
    let mut idx: usize = 0;
    let total: usize = posted.len();
    while idx < total
        invariant
            idx <= total,
            total == posted@.len(),
            posted@ == old(posted)@,
            kept@.len() + newly_acknowledged@.len() == idx,
            src_acked.len() == newly_acknowledged@.len(),
            src_kept.len() == kept@.len(),
            forall|i: int|
                #![trigger src_kept[i]]
                0 <= i < kept@.len() ==> 0 <= src_kept[i] < old(posted)@.len() && old(
                    posted,
                )@[src_kept[i]].0 == kept@[i].0 && old(posted)@[src_kept[i]].1@ == kept@[i].1@
                    && kept@[i].0 >= parent,
            forall|i: int|
                #![trigger src_acked[i]]
                0 <= i < newly_acknowledged@.len() ==> 0 <= src_acked[i] < old(posted)@.len()
                    && old(posted)@[src_acked[i]].0 < parent && old(posted)@[src_acked[i]].1@
                    == newly_acknowledged@[i]@,
        decreases total - idx,
    {
        let (id, sk) = {
            let entry = &posted[idx];
            (entry.0, copy_range(entry.1.as_slice(), 0, entry.1.len()))
        };
        proof {
            assert(sk@ =~= old(posted)@[idx as int].1@);
        }
        if id < parent {
            newly_acknowledged.push(sk);
            proof {
                src_acked = src_acked.push(idx as int);
            }
        } else {
            kept.push((id, sk));
            proof {
                src_kept = src_kept.push(idx as int);
            }
        }
        idx = idx + 1;
    }
    let result = (newly_acknowledged, Ghost(src_kept), Ghost(src_acked));
    proof {
        assert(spec_pruned(old(posted)@, kept@, result.0@, src_kept, src_acked, parent));
    }
    *posted = kept;
    result
}

/// A live session with one peer: the ratchet, the peer's identity, the two
/// current seeker keys, and the board keys of our still-unacknowledged
/// posts.
pub struct Session {
    /// The ratchet instance.
    pub agraphon_instance: Agraphon,
    /// The peer's verified public keys.
    pub peer_public_keys: UserPublicKeys,
    /// The peer's current seeker secret key: their next message is posted
    /// under the hash of its public key.
    pub peer_seeker_secret: Vec<u8>,
    /// Our current seeker secret key, rotated at every send.
    pub self_seeker_secret: Vec<u8>,
    /// Board keys of our sent messages, paired with their local ids,
    /// oldest first; pruned as the peer acknowledges them.
    pub posted_seekers: Vec<(u64, Vec<u8>)>,
}

impl Session {
    /// Structural soundness of the session.
    pub open spec fn wf(&self) -> bool {
        &&& self.agraphon_instance.wf()
        &&& self.peer_public_keys.wf()
        &&& self.peer_seeker_secret@.len() == secondary::SECONDARY_SECRET_KEY_SIZE
        &&& self.self_seeker_secret@.len() == secondary::SECONDARY_SECRET_KEY_SIZE
    }

    /// Whether two sessions hold the same values.
    pub open spec fn spec_session_eq(a: &Session, b: &Session) -> bool {
        &&& Agraphon::spec_state_eq(&a.agraphon_instance, &b.agraphon_instance)
        &&& a.peer_public_keys.dsa_verification_key@ == b.peer_public_keys.dsa_verification_key@
        &&& a.peer_public_keys.kem_public_key@ == b.peer_public_keys.kem_public_key@
        &&& a.peer_public_keys.secondary_public_key@ == b.peer_public_keys.secondary_public_key@
        &&& a.peer_seeker_secret@ == b.peer_seeker_secret@
        &&& a.self_seeker_secret@ == b.self_seeker_secret@
        &&& spec_posted_eq(a.posted_seekers@, b.posted_seekers@)
    }

    /// What one session send does: the seeker key rotates, the board key
    /// is the hash of the outgoing seeker public key, the message is
    /// encoded around the fresh seeker secret, padded with random fill,
    /// ratcheted, and the board blob carries the seeker public key, a
    /// signature of the board key and ratchet bytes under the outgoing
    /// key, and the ratchet bytes themselves.
    pub open spec fn spec_send_post(
        pre: &Session,
        post: &Session,
        message: Seq<u8>,
        timestamp: u128,
        seeker: Seq<u8>,
        data: Seq<u8>,
    ) -> bool {
        &&& post.peer_public_keys.dsa_verification_key@
            == pre.peer_public_keys.dsa_verification_key@
        &&& post.peer_public_keys.kem_public_key@ == pre.peer_public_keys.kem_public_key@
        &&& post.peer_public_keys.secondary_public_key@
            == pre.peer_public_keys.secondary_public_key@
        &&& post.peer_seeker_secret@ == pre.peer_seeker_secret@
        &&& post.self_seeker_secret@.len() == secondary::SECONDARY_SECRET_KEY_SIZE
        &&& post.agraphon_instance.role == pre.agraphon_instance.role
        &&& crate::history::spec_peer_eq(
            &post.agraphon_instance.latest_peer_msg,
            &pre.agraphon_instance.latest_peer_msg,
        )
        &&& post.agraphon_instance.self_msg_history@.len()
            == pre.agraphon_instance.self_msg_history@.len() + 1
        &&& post.agraphon_instance.spec_back_id() == pre.agraphon_instance.spec_back_id() + 1
        &&& post.agraphon_instance.spec_lag() == pre.agraphon_instance.spec_lag() + 1
        &&& seeker == spec_seeker_bytes(secondary::sec_pubkey_of(pre.self_seeker_secret@))
        &&& spec_posted_eq(
            post.posted_seekers@.drop_last(),
            pre.posted_seekers@,
        )
        &&& post.posted_seekers@.len() == pre.posted_seekers@.len() + 1
        &&& post.posted_seekers@.last().0 == post.agraphon_instance.spec_back_id()
        &&& post.posted_seekers@.last().1@ == seeker
        &&& exists|padded: Seq<u8>, body: Seq<u8>, enc_r: Seq<u8>|
            #![trigger Agraphon::spec_send_wire(&pre.agraphon_instance, &post.agraphon_instance, padded, body, enc_r)]
            {
                &&& spec_padded_wf(
                    padded,
                    spec_message_enc(timestamp, post.self_seeker_secret@, message),
                )
                &&& Agraphon::spec_send_wire(
                    &pre.agraphon_instance,
                    &post.agraphon_instance,
                    padded,
                    body,
                    enc_r,
                )
                &&& data == seq![
                    secondary::SECONDARY_PUBLIC_KEY_SIZE as u8,
                ] + secondary::sec_pubkey_of(pre.self_seeker_secret@) + seq![
                    secondary::SECONDARY_SIGNATURE_SIZE as u8,
                ] + secondary::sec_sign_of(
                    pre.self_seeker_secret@,
                    secondary::hash32_of(spec_seeker_signed_data(seeker, body)),
                ) + body
            }
        &&& (data.len() - 98 - 2304) % (crate::PADDING_BLOCK_SIZE as int) == 0
        &&& data.len() >= 98 + 2304 + 512
    }

    /// What a session built from a pair of initiation requests holds: a
    /// zero-lag ratchet, the peer's verified keys, and both sides' initial
    /// seeker secrets, with no posted board keys yet.
    pub open spec fn spec_paired(
        outgoing: &OutgoingInitiationRequest,
        incoming: &IncomingInitiationRequest,
        s: &Session,
    ) -> bool {
        &&& s.wf()
        &&& s.agraphon_instance.spec_lag() == 0
        &&& s.peer_seeker_secret@ == incoming.seeker_secret@
        &&& s.self_seeker_secret@ == outgoing.seeker_secret@
        &&& s.peer_public_keys.dsa_verification_key@
            == incoming.origin_public_keys.dsa_verification_key@
        &&& s.peer_public_keys.kem_public_key@ == incoming.origin_public_keys.kem_public_key@
        &&& s.peer_public_keys.secondary_public_key@
            == incoming.origin_public_keys.secondary_public_key@
        &&& s.posted_seekers@.len() == 0
    }

    /// Builds the session from the pair of initiation requests, ours and
    /// the peer's.  Both sides build from the same pair seen from opposite
    /// ends, so they derive identical ratchet values and opposite roles.
    /// Refused when the two handshake ids tie, which would leave the roles
    /// ambiguous.
    pub fn from_initiation_request_pair(
        outgoing_initiation_request: &OutgoingInitiationRequest,
        incoming_initiation_request: &IncomingInitiationRequest,
    ) -> (r: Option<Session>)
        requires
            outgoing_initiation_request.wf(),
            incoming_initiation_request.wf(),
        ensures
            (r is Some) == (outgoing_initiation_request.agraphon_announcement.id@
                != incoming_initiation_request.agraphon_announcement.id@),
            match r {
                Some(s) => Session::spec_paired(
                    outgoing_initiation_request,
                    incoming_initiation_request,
                    &s,
                ),
                None => true,
            },
    {
        let agraphon_instance = match Agraphon::from_announcement_pair(
            outgoing_initiation_request.agraphon_announcement.duplicate(),
            &incoming_initiation_request.agraphon_announcement,
        ) {
            Some(a) => a,
            None => {
                return None;
            },
        };
        let s = Session {
            agraphon_instance,
            peer_public_keys: incoming_initiation_request.origin_public_keys.duplicate(),
            peer_seeker_secret: copy_range(
                incoming_initiation_request.seeker_secret.as_slice(),
                0,
                incoming_initiation_request.seeker_secret.len(),
            ),
            self_seeker_secret: copy_range(
                outgoing_initiation_request.seeker_secret.as_slice(),
                0,
                outgoing_initiation_request.seeker_secret.len(),
            ),
            posted_seekers: Vec::new(),
        };
        proof {
            assert(s.peer_seeker_secret@ =~= incoming_initiation_request.seeker_secret@);
            assert(s.self_seeker_secret@ =~= outgoing_initiation_request.seeker_secret@);
            assert(Session::spec_paired(
                outgoing_initiation_request,
                incoming_initiation_request,
                &s,
            ));
        }
        Some(s)
    }

    /// The board key under which the peer's next message will appear.
    pub fn next_peer_message_seeker(&self) -> (r: Vec<u8>)
        requires
            self.wf(),
        ensures
            r@ == spec_seeker_bytes(secondary::sec_pubkey_of(self.peer_seeker_secret@)),
    {
        let pk = secondary::sec_public_key(self.peer_seeker_secret.as_slice());
        compute_seeker(pk.as_slice())
    }

    /// Sends a message: rotates our seeker keypair, encodes and pads the
    /// message around the fresh seeker secret, ratchets it through the
    /// session, and signs the board write under the outgoing (now
    /// previous) seeker key, whose hashed public key is the board key.
    /// Never fails, and the whole board blob is pinned by
    /// [`Session::spec_send_post`] up to the drawn randomness.
    pub fn send_outgoing_message(&mut self, message: &[u8]) -> (r: Option<SendOutgoingMessageOutput>)
        requires
            old(self).wf(),
            old(self).agraphon_instance.spec_back_id() < u64::MAX,
            message@.len() + 2 * PADDING_BLOCK_SIZE <= usize::MAX,
        ensures
            final(self).wf(),
            r is Some,
            match r {
                Some(out) => Session::spec_send_post(
                    old(self),
                    final(self),
                    message@,
                    out.timestamp,
                    out.seeker@,
                    out.data@,
                ),
                None => false,
            },
    {
        let timestamp: u128 = timestamp_millis();
        let fresh_secret = fill_random(secondary::SECONDARY_SECRET_KEY_SIZE);
        let outgoing_secret = copy_range(
            self.self_seeker_secret.as_slice(),
            0,
            self.self_seeker_secret.len(),
        );
        proof {
            assert(outgoing_secret@ =~= old(self).self_seeker_secret@);
        }
        self.self_seeker_secret = fresh_secret;
        let seeker_public_key = secondary::sec_public_key(outgoing_secret.as_slice());
        let seeker = compute_seeker(seeker_public_key.as_slice());
        let msg_bytes = encode_message(
            timestamp,
            self.self_seeker_secret.as_slice(),
            message,
        );
        proof {
            assert(msg_bytes@.len() == 64 + message@.len());
        }
        let padded = pad_payload(msg_bytes.as_slice());
        let agraphon_message_bytes = self.agraphon_instance.send_outgoing_message(
            padded.as_slice(),
        );
        let data_to_sign = compute_seeker_data_to_sign(
            seeker.as_slice(),
            agraphon_message_bytes.as_slice(),
        );
        let hash_to_sign = secondary::hash32(data_to_sign.as_slice());
        let signature = secondary::sec_sign(outgoing_secret.as_slice(), hash_to_sign.as_slice());
        let mut data: Vec<u8> = Vec::new();
        data.push(secondary::SECONDARY_PUBLIC_KEY_SIZE as u8);
        push_bytes(&mut data, seeker_public_key.as_slice());
        data.push(secondary::SECONDARY_SIGNATURE_SIZE as u8);
        push_bytes(&mut data, signature.as_slice());
        push_bytes(&mut data, agraphon_message_bytes.as_slice());
        let local_id = self.agraphon_instance.latest_local_id();
        let seeker_copy = copy_range(seeker.as_slice(), 0, seeker.len());
        proof {
            assert(seeker_copy@ =~= seeker@);
        }
        self.posted_seekers.push((local_id, seeker_copy));
        proof {
            let pre = old(self);
            let enc_r = choose|enc_r: Seq<u8>|
                Agraphon::spec_send_wire(
                    &pre.agraphon_instance,
                    &self.agraphon_instance,
                    padded@,
                    agraphon_message_bytes@,
                    enc_r,
                );
            assert(Agraphon::spec_send_wire(
                &pre.agraphon_instance,
                &self.agraphon_instance,
                padded@,
                agraphon_message_bytes@,
                enc_r,
            ));
            assert(data@ =~= seq![secondary::SECONDARY_PUBLIC_KEY_SIZE as u8]
                + secondary::sec_pubkey_of(pre.self_seeker_secret@) + seq![
                secondary::SECONDARY_SIGNATURE_SIZE as u8,
            ] + secondary::sec_sign_of(
                pre.self_seeker_secret@,
                secondary::hash32_of(spec_seeker_signed_data(seeker@, agraphon_message_bytes@)),
            ) + agraphon_message_bytes@);
            assert(self.posted_seekers@.drop_last() =~= pre.posted_seekers@);
            assert(agraphon_message_bytes@.len() == 2304 + padded@.len());
            assert(data@.len() == 98 + agraphon_message_bytes@.len());
            assert(padded@.len() >= 512) by {
                assert(padded@.len() >= 8);
                assert(padded@.len() as int % (PADDING_BLOCK_SIZE as int) == 0);
            }
            assert(Session::spec_send_post(
                pre,
                self,
                message@,
                timestamp,
                seeker@,
                data@,
            ));
        }
        Some(SendOutgoingMessageOutput { timestamp, seeker, data })
    }

    /// Whether the non-ratchet fields of two sessions hold the same values.
    pub open spec fn spec_session_fields_eq_but_ratchet(a: &Session, b: &Session) -> bool {
        &&& a.peer_public_keys.dsa_verification_key@ == b.peer_public_keys.dsa_verification_key@
        &&& a.peer_public_keys.kem_public_key@ == b.peer_public_keys.kem_public_key@
        &&& a.peer_public_keys.secondary_public_key@ == b.peer_public_keys.secondary_public_key@
        &&& a.peer_seeker_secret@ == b.peer_seeker_secret@
        &&& a.self_seeker_secret@ == b.self_seeker_secret@
        &&& spec_posted_eq(a.posted_seekers@, b.posted_seekers@)
    }

    /// Whether a board read is well framed and authentic: the board key is
    /// the tagged hash of the seeker public key carried in the blob, and
    /// the board-level signature over the board key and ratchet bytes
    /// verifies under that key.
    pub open spec fn spec_board_frame_ok(seeker: Seq<u8>, message: Seq<u8>) -> bool {
        &&& seeker.len() == secondary::HASH_SIZE + 2
        &&& seeker[0] == secondary::HASH_SIZE as u8
        &&& seeker[secondary::HASH_SIZE + 1] == SEEKER_DOMAIN_TAG
        &&& message.len() >= 98
        &&& message[0] == secondary::SECONDARY_PUBLIC_KEY_SIZE as u8
        &&& message[33] == secondary::SECONDARY_SIGNATURE_SIZE as u8
        &&& seeker.subrange(1, 33) == secondary::hash32_of(message.subrange(1, 33))
        &&& secondary::sec_verify_ok(
            message.subrange(1, 33),
            secondary::hash32_of(
                spec_seeker_signed_data(seeker, message.subrange(98, message.len() as int)),
            ),
            message.subrange(34, 98),
        )
    }

    /// Whether the ratchet accepts these bytes at its newest accepting
    /// parent and the recovered payload unpads and decodes as a session
    /// message.
    pub open spec fn spec_ratchet_read_ok(
        ratchet: &Agraphon,
        static_sk: Seq<u8>,
        body: Seq<u8>,
    ) -> bool {
        exists|pid: u64|
            #![trigger ratchet.spec_has_parent(pid)]
            {
                let par = &ratchet.self_msg_history@[pid - ratchet.spec_front_id()];
                &&& ratchet.spec_has_parent(pid)
                &&& ratchet.spec_receive_ok(par, static_sk, body)
                &&& forall|pid2: u64|
                    (#[trigger] ratchet.spec_has_parent(pid2)) && pid2 > pid
                        ==> !ratchet.spec_receive_ok(
                        &ratchet.self_msg_history@[pid2 - ratchet.spec_front_id()],
                        static_sk,
                        body,
                    )
                &&& spec_unpad(ratchet.spec_receive_payload(par, static_sk, body)) matches Some(
                    enc,
                ) && spec_message_decodes(enc)
            }
    }

    /// What one successful session receive does: the board key is the hash
    /// of the seeker public key carried in the blob, the board-level
    /// signature verifies under that key, some still-unacknowledged parent
    /// accepts the ratchet bytes, the recovered payload unpads and decodes
    /// to the returned message around the peer's adopted next seeker key,
    /// and the board keys of posts older than the acknowledged parent are
    /// handed back for garbage collection.
    pub open spec fn spec_feed_post(
        pre: &Session,
        post: &Session,
        static_sk: Seq<u8>,
        seeker: Seq<u8>,
        message: Seq<u8>,
        timestamp: u128,
        payload: Seq<u8>,
        acked: Seq<Vec<u8>>,
    ) -> bool {
        let pk = message.subrange(1, 33);
        let sig = message.subrange(34, 98);
        let body = message.subrange(98, message.len() as int);
        let parent = post.agraphon_instance.latest_peer_msg.our_parent_id;
        &&& message.len() >= 98
        &&& seeker == spec_seeker_bytes(pk)
        &&& secondary::sec_verify_ok(
            pk,
            secondary::hash32_of(spec_seeker_signed_data(seeker, body)),
            sig,
        )
        &&& post.peer_public_keys.dsa_verification_key@
            == pre.peer_public_keys.dsa_verification_key@
        &&& post.peer_public_keys.kem_public_key@ == pre.peer_public_keys.kem_public_key@
        &&& post.peer_public_keys.secondary_public_key@
            == pre.peer_public_keys.secondary_public_key@
        &&& post.self_seeker_secret@ == pre.self_seeker_secret@
        &&& post.peer_seeker_secret@.len() == secondary::SECONDARY_SECRET_KEY_SIZE
        &&& exists|pid: u64|
            #![trigger pre.agraphon_instance.spec_has_parent(pid)]
            {
                let ratchet = &pre.agraphon_instance;
                let par = &ratchet.self_msg_history@[pid - ratchet.spec_front_id()];
                &&& ratchet.spec_has_parent(pid)
                &&& ratchet.spec_receive_ok(par, static_sk, body)
                &&& spec_unpad(ratchet.spec_receive_payload(par, static_sk, body)) matches Some(
                    enc,
                ) && enc == spec_message_enc(timestamp, post.peer_seeker_secret@, payload)
                &&& parent == pid
            }
        &&& exists|src_kept: Seq<int>, src_acked: Seq<int>|
            #[trigger] spec_pruned(
                pre.posted_seekers@,
                post.posted_seekers@,
                acked,
                src_kept,
                src_acked,
                parent,
            )
    }

    /// Receives a board read: checks the board key against the seeker
    /// public key carried in the blob, verifies the board-level signature,
    /// then tries each still-unacknowledged parent, newest first, until the
    /// ratchet accepts the message; finally unpads and decodes the inner
    /// message, adopts the peer's next seeker key, and reports the board
    /// keys of our acknowledged posts.
    #[verifier::rlimit(100)]
    pub fn try_feed_incoming_message(
        &mut self,
        self_static_sk: &UserSecretKeys,
        seeker: &[u8],
        message: &[u8],
    ) -> (r: Option<FeedIncomingMessageOutput>)
        requires
            old(self).wf(),
            self_static_sk.kem_secret_key.wf(),
        ensures
            final(self).wf(),
            (Session::spec_board_frame_ok(seeker@, message@) && Session::spec_ratchet_read_ok(
                &old(self).agraphon_instance,
                self_static_sk.kem_secret_key@,
                message@.subrange(98, message@.len() as int),
            )) ==> r is Some,
            match r {
                Some(out) => Session::spec_feed_post(
                    old(self),
                    final(self),
                    self_static_sk.kem_secret_key@,
                    seeker@,
                    message@,
                    out.timestamp,
                    out.message@,
                    out.newly_acknowledged_self_seekers@,
                ),
                None => true,
            },
    {
        let ghost skv = self_static_sk.kem_secret_key@;
        // board key layout: hash length, hash, domain tag
        let total: usize = message.len();
        if seeker.len() != secondary::HASH_SIZE + 2 {
            return None;
        }
        if seeker[0] != secondary::HASH_SIZE as u8 {
            return None;
        }
        if seeker[secondary::HASH_SIZE + 1] != SEEKER_DOMAIN_TAG {
            return None;
        }
        // blob layout: public key length, public key, signature length,
        // signature, ratchet ciphertext
        if total < 2 + secondary::SECONDARY_PUBLIC_KEY_SIZE + secondary::SECONDARY_SIGNATURE_SIZE {
            return None;
        }
        if message[0] != secondary::SECONDARY_PUBLIC_KEY_SIZE as u8 {
            return None;
        }
        let seeker_public_key = copy_range(message, 1, secondary::SECONDARY_PUBLIC_KEY_SIZE);
        let sig_len_at: usize = 1 + secondary::SECONDARY_PUBLIC_KEY_SIZE;
        if message[sig_len_at] != secondary::SECONDARY_SIGNATURE_SIZE as u8 {
            return None;
        }
        let signature = copy_range(message, sig_len_at + 1, secondary::SECONDARY_SIGNATURE_SIZE);
        let body_at: usize = sig_len_at + 1 + secondary::SECONDARY_SIGNATURE_SIZE;
        let message_bytes = copy_range(message, body_at, total - body_at);
        proof {
            assert(seeker_public_key@ =~= message@.subrange(1, 33));
            assert(signature@ =~= message@.subrange(34, 98));
            assert(message_bytes@ =~= message@.subrange(98, message@.len() as int));
        }
        // the board key must be the hash of the carried seeker public key
        let expected_hash = secondary::hash32(seeker_public_key.as_slice());
        let seeker_hash = copy_range(seeker, 1, secondary::HASH_SIZE);
        proof {
            assert(seeker_hash@ =~= seeker@.subrange(1, 33));
        }
        if !eq_bytes(seeker_hash.as_slice(), expected_hash.as_slice()) {
            proof {
                assert(!Session::spec_board_frame_ok(seeker@, message@));
            }
            return None;
        }
        // the board write must be signed under that seeker key
        let data_to_sign = compute_seeker_data_to_sign(seeker, message_bytes.as_slice());
        let hash_to_verify = secondary::hash32(data_to_sign.as_slice());
        if !secondary::sec_verify(
            seeker_public_key.as_slice(),
            hash_to_verify.as_slice(),
            signature.as_slice(),
        ) {
            proof {
                assert(!Session::spec_board_frame_ok(seeker@, message@));
            }
            return None;
        }
        // try each candidate parent, newest first; a failed attempt leaves
        // the ratchet untouched
        let count: usize = self.agraphon_instance.self_msg_history.len();
        let front: u64 = self.agraphon_instance.self_msg_history[0].local_id;
        let mut k: usize = 0;
        let mut payload_opt: Option<Vec<u8>> = None;
        while k < count && payload_opt.is_none()
            invariant
                k <= count,
                count == old(self).agraphon_instance.self_msg_history@.len(),
                front == old(self).agraphon_instance.spec_front_id(),
                self.wf(),
                self_static_sk.kem_secret_key.wf(),
                skv == self_static_sk.kem_secret_key@,
                self.peer_public_keys.wf(),
                Session::spec_session_fields_eq_but_ratchet(self, old(self)),
                match payload_opt {
                    Some(ref p) => exists|pid: u64|
                        #![trigger old(self).agraphon_instance.spec_has_parent(pid)]
                        {
                            let ratchet = &old(self).agraphon_instance;
                            let parent = &ratchet.self_msg_history@[pid
                                - ratchet.spec_front_id()];
                            &&& ratchet.spec_has_parent(pid)
                            &&& ratchet.spec_receive_ok(parent, skv, message_bytes@)
                            &&& forall|pid2: u64|
                                (#[trigger] ratchet.spec_has_parent(pid2)) && pid2 > pid
                                    ==> !ratchet.spec_receive_ok(
                                    &ratchet.self_msg_history@[pid2 - ratchet.spec_front_id()],
                                    skv,
                                    message_bytes@,
                                )
                            &&& p@ == ratchet.spec_receive_payload(parent, skv, message_bytes@)
                            &&& self.agraphon_instance.latest_peer_msg.our_parent_id == pid
                            &&& Session::spec_session_fields_eq_but_ratchet(self, old(self))
                        },
                    None => {
                        &&& crate::agraphon::Agraphon::spec_state_eq(
                            &self.agraphon_instance,
                            &old(self).agraphon_instance,
                        )
                        &&& forall|pid: u64|
                            (#[trigger] old(self).agraphon_instance.spec_has_parent(pid)) && (
                            pid as int) > (old(self).agraphon_instance.spec_back_id() as int) - (
                            k as int) ==> !old(self).agraphon_instance.spec_receive_ok(
                                &old(self).agraphon_instance.self_msg_history@[pid - old(
                                    self,
                                ).agraphon_instance.spec_front_id()],
                                skv,
                                message_bytes@,
                            )
                    },
                },
            decreases count - k,
        {
            let hist_len: usize = self.agraphon_instance.self_msg_history.len();
            let back: u64 = self.agraphon_instance.self_msg_history[hist_len - 1].local_id;
            let fr: u64 = self.agraphon_instance.self_msg_history[0].local_id;
            proof {
                assert(crate::history::spec_item_eq(
                    &self.agraphon_instance.self_msg_history@[hist_len - 1],
                    &old(self).agraphon_instance.self_msg_history@[hist_len - 1],
                ));
                assert(back == old(self).agraphon_instance.spec_back_id());
                assert(fr == front);
                assert(back - fr == count - 1);
            }
            let candidate: u64 = back - k as u64;
            let ghost pre_call = self.agraphon_instance;
            payload_opt = self.agraphon_instance.try_feed_incoming_message(
                candidate,
                &self_static_sk.kem_secret_key,
                message_bytes.as_slice(),
            );
            proof {
                let ratchet = &old(self).agraphon_instance;
                let idx = candidate - pre_call.spec_front_id();
                crate::agraphon::Agraphon::lemma_receive_state_congruence(
                    &pre_call,
                    ratchet,
                    idx,
                    skv,
                    message_bytes@,
                );
                assert(ratchet.spec_front_id() == pre_call.spec_front_id());
                assert(ratchet.spec_has_parent(candidate));
                if payload_opt is Some {
                    assert(self.agraphon_instance.latest_peer_msg.our_parent_id == candidate);
                    assert(Session::spec_session_fields_eq_but_ratchet(self, old(self)));
                    assert forall|pid2: u64|
                        (#[trigger] ratchet.spec_has_parent(pid2)) && pid2 > candidate
                            implies !ratchet.spec_receive_ok(
                            &ratchet.self_msg_history@[pid2 - ratchet.spec_front_id()],
                            skv,
                            message_bytes@,
                        ) by {
                        assert((pid2 as int) > (ratchet.spec_back_id() as int) - (k as int));
                    }
                } else {
                    assert(!ratchet.spec_receive_ok(
                        &ratchet.self_msg_history@[candidate - ratchet.spec_front_id()],
                        skv,
                        message_bytes@,
                    ));
                    assert forall|pid: u64|
                        (#[trigger] ratchet.spec_has_parent(pid)) && (pid as int) > (
                        ratchet.spec_back_id() as int) - ((k + 1) as int)
                            implies !ratchet.spec_receive_ok(
                            &ratchet.self_msg_history@[pid - ratchet.spec_front_id()],
                            skv,
                            message_bytes@,
                        ) by {
                        if pid != candidate {
                            assert((pid as int) > (ratchet.spec_back_id() as int) - (k as int));
                        }
                    }
                }
            }
            k = k + 1;
        }
        proof {
            if payload_opt is None {
                let ratchet = &old(self).agraphon_instance;
                if Session::spec_board_frame_ok(seeker@, message@)
                    && Session::spec_ratchet_read_ok(ratchet, skv, message_bytes@) {
                    let pid = choose|pid: u64|
                        #![trigger ratchet.spec_has_parent(pid)]
                        {
                            let par = &ratchet.self_msg_history@[pid - ratchet.spec_front_id()];
                            &&& ratchet.spec_has_parent(pid)
                            &&& ratchet.spec_receive_ok(par, skv, message_bytes@)
                            &&& forall|pid2: u64|
                                (#[trigger] ratchet.spec_has_parent(pid2)) && pid2 > pid
                                    ==> !ratchet.spec_receive_ok(
                                    &ratchet.self_msg_history@[pid2 - ratchet.spec_front_id()],
                                    skv,
                                    message_bytes@,
                                )
                            &&& spec_unpad(
                                ratchet.spec_receive_payload(par, skv, message_bytes@),
                            ) matches Some(enc) && spec_message_decodes(enc)
                        };
                    assert((pid as int) > (ratchet.spec_back_id() as int) - (count as int));
                    assert(false);
                }
            }
        }
        let padded_payload = match payload_opt {
            Some(p) => p,
            None => {
                return None;
            },
        };
        let ghost loop_pid = choose|pid: u64|
            #![trigger old(self).agraphon_instance.spec_has_parent(pid)]
            {
                let ratchet = &old(self).agraphon_instance;
                let parent = &ratchet.self_msg_history@[pid - ratchet.spec_front_id()];
                &&& ratchet.spec_has_parent(pid)
                &&& ratchet.spec_receive_ok(parent, skv, message_bytes@)
                &&& forall|pid2: u64|
                    (#[trigger] ratchet.spec_has_parent(pid2)) && pid2 > pid
                        ==> !ratchet.spec_receive_ok(
                        &ratchet.self_msg_history@[pid2 - ratchet.spec_front_id()],
                        skv,
                        message_bytes@,
                    )
                &&& padded_payload@ == ratchet.spec_receive_payload(parent, skv, message_bytes@)
                &&& self.agraphon_instance.latest_peer_msg.our_parent_id == pid
                &&& Session::spec_session_fields_eq_but_ratchet(self, old(self))
            };
        let msg_enc = match unpad_payload(padded_payload.as_slice()) {
            Some(m) => m,
            None => {
                proof {
                    let ratchet = &old(self).agraphon_instance;
                    if Session::spec_board_frame_ok(seeker@, message@)
                        && Session::spec_ratchet_read_ok(ratchet, skv, message_bytes@) {
                        let pid0 = choose|pid: u64|
                            #![trigger ratchet.spec_has_parent(pid)]
                            {
                                let par = &ratchet.self_msg_history@[pid
                                    - ratchet.spec_front_id()];
                                &&& ratchet.spec_has_parent(pid)
                                &&& ratchet.spec_receive_ok(par, skv, message_bytes@)
                                &&& forall|pid2: u64|
                                    (#[trigger] ratchet.spec_has_parent(pid2)) && pid2 > pid
                                        ==> !ratchet.spec_receive_ok(
                                        &ratchet.self_msg_history@[pid2
                                            - ratchet.spec_front_id()],
                                        skv,
                                        message_bytes@,
                                    )
                                &&& spec_unpad(
                                    ratchet.spec_receive_payload(par, skv, message_bytes@),
                                ) matches Some(enc) && spec_message_decodes(enc)
                            };
                        assert(pid0 == loop_pid);
                        assert(false);
                    }
                }
                return None;
            },
        };
        let msg = match decode_message(msg_enc.as_slice()) {
            Some(m) => m,
            None => {
                proof {
                    let ratchet = &old(self).agraphon_instance;
                    if Session::spec_board_frame_ok(seeker@, message@)
                        && Session::spec_ratchet_read_ok(ratchet, skv, message_bytes@) {
                        let pid0 = choose|pid: u64|
                            #![trigger ratchet.spec_has_parent(pid)]
                            {
                                let par = &ratchet.self_msg_history@[pid
                                    - ratchet.spec_front_id()];
                                &&& ratchet.spec_has_parent(pid)
                                &&& ratchet.spec_receive_ok(par, skv, message_bytes@)
                                &&& forall|pid2: u64|
                                    (#[trigger] ratchet.spec_has_parent(pid2)) && pid2 > pid
                                        ==> !ratchet.spec_receive_ok(
                                        &ratchet.self_msg_history@[pid2
                                            - ratchet.spec_front_id()],
                                        skv,
                                        message_bytes@,
                                    )
                                &&& spec_unpad(
                                    ratchet.spec_receive_payload(par, skv, message_bytes@),
                                ) matches Some(enc) && spec_message_decodes(enc)
                            };
                        assert(pid0 == loop_pid);
                        let par0 = &ratchet.self_msg_history@[pid0 - ratchet.spec_front_id()];
                        assert(spec_unpad(
                            ratchet.spec_receive_payload(par0, skv, message_bytes@),
                        ) == Some(msg_enc@));
                        let (ts, sn, c) = choose|ts: u128, sn: Seq<u8>, c: Seq<u8>|
                            msg_enc@ == #[trigger] spec_message_enc(ts, sn, c) && sn.len()
                                == secondary::SECONDARY_SECRET_KEY_SIZE && sn.len() <= u64::MAX
                                && c.len() <= u64::MAX;
                        assert(false);
                    }
                }
                return None;
            },
        };
        proof {
            assert(seeker_public_key@ =~= message@.subrange(1, 33));
            assert(signature@ =~= message@.subrange(34, 98));
            assert(message_bytes@ =~= message@.subrange(98, message@.len() as int));
            assert(seeker@ =~= spec_seeker_bytes(seeker_public_key@));
        }
        // adopt the peer's next seeker key
        self.peer_seeker_secret = msg.seeker_next;
        // collect and prune the board keys of acknowledged posts
        let parent: u64 = self.agraphon_instance.latest_peer_msg.our_parent_id;
        let ghost posted_pre = self.posted_seekers@;
        let pruned = prune_posted(&mut self.posted_seekers, parent);
        let newly_acknowledged_self_seekers = pruned.0;
        let ghost src_kept = pruned.1@;
        let ghost src_acked = pruned.2@;
        proof {
            assert(spec_posted_eq(posted_pre, old(self).posted_seekers@));
            assert forall|i: int| #![trigger src_kept[i]] 0 <= i < src_kept.len() implies old(
                self,
            ).posted_seekers@[src_kept[i]].0 == posted_pre[src_kept[i]].0 && old(
                self,
            ).posted_seekers@[src_kept[i]].1@ == posted_pre[src_kept[i]].1@ by {
                assert(spec_pruned(
                    posted_pre,
                    self.posted_seekers@,
                    newly_acknowledged_self_seekers@,
                    src_kept,
                    src_acked,
                    parent,
                ));
            }
            assert(spec_pruned(
                old(self).posted_seekers@,
                self.posted_seekers@,
                newly_acknowledged_self_seekers@,
                src_kept,
                src_acked,
                parent,
            ));
        }
        proof {
            assert(Session::spec_feed_post(
                old(self),
                self,
                self_static_sk.kem_secret_key@,
                seeker@,
                message@,
                msg.timestamp,
                msg.contents@,
                newly_acknowledged_self_seekers@,
            ));
        }
        Some(
            FeedIncomingMessageOutput {
                timestamp: msg.timestamp,
                message: msg.contents,
                newly_acknowledged_self_seekers,
            },
        )
    }

    /// The lag of the underlying ratchet.
    pub fn lag_length(&self) -> (r: u64)
        requires
            self.wf(),
        ensures
            r == self.agraphon_instance.spec_lag(),
    {
        self.agraphon_instance.lag_length()
    }
}

} // verus!

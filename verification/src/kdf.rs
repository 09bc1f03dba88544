//! Labeled key derivation.
//!
//! All derivations in the protocol go through one primitive: HKDF-SHA256 with
//! a domain-separation salt, a sequence of marked, length-prefixed input
//! items (so that distinct input lists can never produce the same key
//! material stream), and labeled expand calls.  The framing of the inputs is
//! this crate's own logic and is verified; only the final HKDF call is
//! trusted.

use vstd::prelude::*;
use crate::wire::{push_bytes, push_u64_be, spec_u64_be};

verus! {

/// Marker fed before each input item.
pub const INPUT_MARKER: u8 = 1;

/// Marker fed once after the last input item.
pub const END_MARKER: u8 = 0;

/// What HKDF-SHA256 returns: the first `n` bytes of the output keystream for
/// the given salt, input key material and info label.
pub uninterp spec fn hkdf_of(salt: Seq<u8>, ikm: Seq<u8>, info: Seq<u8>, n: nat) -> Seq<u8>;

/// Relies on hkdf::Hkdf<Sha256>: extract with `salt` over `ikm`, then expand
/// with `info` to `n` bytes.  The result depends on the arguments alone.
/// Expansion fails above 255 hash lengths, so `n` is capped.
#[verifier::external_body]
fn hkdf_extract_expand(salt: &[u8], ikm: &[u8], info: &[u8], n: usize) -> (r: Vec<u8>)
    requires
        n <= 8160,
    ensures
        r@.len() == n,
        r@ == hkdf_of(salt@, ikm@, info@, n as nat),
{
    let h = hkdf::Hkdf::<sha2::Sha256>::new(Some(salt), ikm);
    let mut okm = vec![0u8; n];
    h.expand(info, &mut okm).expect("HKDF expand failed");
    okm
}

/// One framed input item: a marker, the item's length, then the item.
pub open spec fn spec_kdf_item(input: Seq<u8>) -> Seq<u8> {
    seq![INPUT_MARKER] + spec_u64_be(input.len() as u64) + input
}

/// Key derivation, extraction phase: accumulates framed input items over a
/// salt.  `finalize` seals the list and yields an [`Expand`].
pub struct Extract {
    salt: Vec<u8>,
    ikm: Vec<u8>,
}

impl Extract {
    /// The salt this extraction was created with.
    pub closed spec fn salt(&self) -> Seq<u8> {
        self.salt@
    }

    /// The framed input key material accumulated so far.
    pub closed spec fn ikm(&self) -> Seq<u8> {
        self.ikm@
    }

    /// Creates an extraction context with the given domain-separation salt.
    pub fn new(salt: &[u8]) -> (r: Extract)
        ensures
            r.salt() == salt@,
            r.ikm() == Seq::<u8>::empty(),
    {
        let mut s: Vec<u8> = Vec::new();
        push_bytes(&mut s, salt);
        let r = Extract { salt: s, ikm: Vec::new() };
        assert(r.ikm@ =~= Seq::<u8>::empty());
        r
    }

    /// Adds one input key material item.  Each item is preceded by a marker
    /// and its length, so no two distinct item lists frame to the same bytes.
    pub fn input_item(&mut self, input: &[u8])
        ensures
            final(self).salt() == old(self).salt(),
            final(self).ikm() == old(self).ikm() + spec_kdf_item(input@),
    {
        let n: usize = input.len();
        self.ikm.push(INPUT_MARKER);
        push_u64_be(&mut self.ikm, n as u64);
        push_bytes(&mut self.ikm, input);
        assert(self.ikm@ =~= old(self).ikm() + spec_kdf_item(input@));
    }

    /// Seals the input list and moves to the expansion phase.
    pub fn finalize(self) -> (r: Expand)
        ensures
            r.salt() == self.salt(),
            r.ikm() == self.ikm() + seq![END_MARKER],
    {
        let mut ikm = self.ikm;
        ikm.push(END_MARKER);
        Expand { salt: self.salt, ikm }
    }
}

/// Key derivation, expansion phase: derives labeled keys from the sealed
/// input list.
pub struct Expand {
    salt: Vec<u8>,
    ikm: Vec<u8>,
}

impl Expand {
    /// The salt of the extraction this expander came from.
    pub closed spec fn salt(&self) -> Seq<u8> {
        self.salt@
    }

    /// The sealed, framed input key material.
    pub closed spec fn ikm(&self) -> Seq<u8> {
        self.ikm@
    }

    /// Derives `n` bytes under the `info` label.
    pub fn expand(&self, info: &[u8], n: usize) -> (r: Vec<u8>)
        requires
            n <= 8160,
        ensures
            r@.len() == n,
            r@ == hkdf_of(self.salt(), self.ikm(), info@, n as nat),
    {
        hkdf_extract_expand(self.salt.as_slice(), self.ikm.as_slice(), info, n)
    }
}

/// The sealed framing of a whole input list, as `Extract::new` +
/// `input_item`* + `finalize` produce it.
pub open spec fn spec_kdf_ikm(items: Seq<Seq<u8>>) -> Seq<u8>
    decreases items.len(),
{
    if items.len() == 0 {
        seq![END_MARKER]
    } else {
        spec_kdf_item(items[0]) + spec_kdf_ikm(items.drop_first())
    }
}

/// The sealed framing of a one-item list.
pub proof fn lemma_kdf_ikm1(a: Seq<u8>)
    ensures
        spec_kdf_ikm(seq![a]) == spec_kdf_item(a) + seq![END_MARKER],
{
    assert(seq![a].drop_first() =~= Seq::<Seq<u8>>::empty());
    assert(spec_kdf_ikm(Seq::<Seq<u8>>::empty()) == seq![END_MARKER]);
    assert(spec_kdf_ikm(seq![a]) == spec_kdf_item(seq![a][0]) + spec_kdf_ikm(
        seq![a].drop_first(),
    ));
}

/// The sealed framing of a two-item list.
pub proof fn lemma_kdf_ikm2(a: Seq<u8>, b: Seq<u8>)
    ensures
        spec_kdf_ikm(seq![a, b]) == spec_kdf_item(a) + (spec_kdf_item(b) + seq![END_MARKER]),
{
    assert(seq![a, b].drop_first() =~= seq![b]);
    lemma_kdf_ikm1(b);
}

/// The sealed framing of a three-item list.
pub proof fn lemma_kdf_ikm3(a: Seq<u8>, b: Seq<u8>, c: Seq<u8>)
    ensures
        spec_kdf_ikm(seq![a, b, c]) == spec_kdf_item(a) + (spec_kdf_item(b) + (spec_kdf_item(c)
            + seq![END_MARKER])),
{
    assert(seq![a, b, c].drop_first() =~= seq![b, c]);
    lemma_kdf_ikm2(b, c);
}

/// The sealed framing of a four-item list.
pub proof fn lemma_kdf_ikm4(a: Seq<u8>, b: Seq<u8>, c: Seq<u8>, d: Seq<u8>)
    ensures
        spec_kdf_ikm(seq![a, b, c, d]) == spec_kdf_item(a) + (spec_kdf_item(b) + (spec_kdf_item(c)
            + (spec_kdf_item(d) + seq![END_MARKER]))),
{
    assert(seq![a, b, c, d].drop_first() =~= seq![b, c, d]);
    lemma_kdf_ikm3(b, c, d);
}

/// The sealed framing of a five-item list.
pub proof fn lemma_kdf_ikm5(a: Seq<u8>, b: Seq<u8>, c: Seq<u8>, d: Seq<u8>, e: Seq<u8>)
    ensures
        spec_kdf_ikm(seq![a, b, c, d, e]) == spec_kdf_item(a) + (spec_kdf_item(b) + (spec_kdf_item(
            c,
        ) + (spec_kdf_item(d) + (spec_kdf_item(e) + seq![END_MARKER])))),
{
    assert(seq![a, b, c, d, e].drop_first() =~= seq![b, c, d, e]);
    lemma_kdf_ikm4(b, c, d, e);
}

/// The full derivation in one spec function: salt, framed items, label, size.
pub open spec fn spec_kdf(salt: Seq<u8>, items: Seq<Seq<u8>>, info: Seq<u8>, n: nat) -> Seq<u8> {
    hkdf_of(salt, spec_kdf_ikm(items), info, n)
}

} // verus!

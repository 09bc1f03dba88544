//! Big-endian integer encodings and length-prefixed byte framing.
//!
//! Every structure this crate stores or sends is laid out with these
//! primitives, so their round-trip lemmas are the base of every codec proof.

use vstd::prelude::*;

verus! {

/// The eight big-endian bytes of a `u64`.
pub open spec fn spec_u64_be(x: u64) -> Seq<u8> {
    seq![
        (x >> 56) as u8,
        (x >> 48) as u8,
        (x >> 40) as u8,
        (x >> 32) as u8,
        (x >> 24) as u8,
        (x >> 16) as u8,
        (x >> 8) as u8,
        x as u8,
    ]
}

/// The `u64` read from eight big-endian bytes.
pub open spec fn spec_u64_from_be(s: Seq<u8>) -> u64
    recommends
        s.len() == 8,
{
    (((s[0] as u64) << 56) | ((s[1] as u64) << 48) | ((s[2] as u64) << 40) | ((s[3] as u64) << 32)
        | ((s[4] as u64) << 24) | ((s[5] as u64) << 16) | ((s[6] as u64) << 8) | (s[7] as u64)) as u64
}

/// Reading back the eight big-endian bytes of `x` gives `x`.
pub proof fn lemma_u64_be_roundtrip(x: u64)
    ensures
        spec_u64_from_be(spec_u64_be(x)) == x,
{
    let s = spec_u64_be(x);
    assert(((((x >> 56) as u8) as u64) << 56) | ((((x >> 48) as u8) as u64) << 48)
        | ((((x >> 40) as u8) as u64) << 40) | ((((x >> 32) as u8) as u64) << 32)
        | ((((x >> 24) as u8) as u64) << 24) | ((((x >> 16) as u8) as u64) << 16)
        | ((((x >> 8) as u8) as u64) << 8) | (((x as u8) as u64)) == x) by (bit_vector);
}

/// Appends the big-endian bytes of `x` to `out`.
pub fn push_u64_be(out: &mut Vec<u8>, x: u64)
    ensures
        final(out)@ == old(out)@ + spec_u64_be(x),
{
    out.push((x >> 56) as u8);
    out.push((x >> 48) as u8);
    out.push((x >> 40) as u8);
    out.push((x >> 32) as u8);
    out.push((x >> 24) as u8);
    out.push((x >> 16) as u8);
    out.push((x >> 8) as u8);
    out.push(x as u8);
    assert(out@ =~= old(out)@ + spec_u64_be(x));
}

/// Reads a big-endian `u64` from `s` at offset `at`.
pub fn read_u64_be(s: &[u8], at: usize) -> (r: u64)
    requires
        at + 8 <= s@.len(),
    ensures
        r == spec_u64_from_be(s@.subrange(at as int, at + 8)),
{
    let r: u64 = ((s[at] as u64) << 56) | ((s[at + 1] as u64) << 48) | ((s[at + 2] as u64) << 40)
        | ((s[at + 3] as u64) << 32) | ((s[at + 4] as u64) << 24) | ((s[at + 5] as u64) << 16)
        | ((s[at + 6] as u64) << 8) | (s[at + 7] as u64);
    assert(s@.subrange(at as int, at + 8)[0] == s@[at as int]);
    r
}

/// The eight big-endian bytes of the value read from eight bytes are those
/// bytes again.
pub proof fn lemma_u64_be_surjective(s: Seq<u8>)
    requires
        s.len() == 8,
    ensures
        spec_u64_be(spec_u64_from_be(s)) =~= s,
{
    let b0: u8 = s[0];
    let b1: u8 = s[1];
    let b2: u8 = s[2];
    let b3: u8 = s[3];
    let b4: u8 = s[4];
    let b5: u8 = s[5];
    let b6: u8 = s[6];
    let b7: u8 = s[7];
    let x: u64 = spec_u64_from_be(s);
    assert(x == (((b0 as u64) << 56) | ((b1 as u64) << 48) | ((b2 as u64) << 40) | ((b3 as u64)
        << 32) | ((b4 as u64) << 24) | ((b5 as u64) << 16) | ((b6 as u64) << 8) | (b7 as u64))
        as u64);
    let y: u64 = ((((b0 as u64) << 56) | ((b1 as u64) << 48) | ((b2 as u64) << 40) | ((b3 as u64)
        << 32) | ((b4 as u64) << 24) | ((b5 as u64) << 16) | ((b6 as u64) << 8) | (b7 as u64))
        as u64);
    assert((y >> 56) as u8 == b0 && (y >> 48) as u8 == b1 && (y >> 40) as u8 == b2 && (y >> 32)
        as u8 == b3 && (y >> 24) as u8 == b4 && (y >> 16) as u8 == b5 && (y >> 8) as u8 == b6 && y
        as u8 == b7) by (bit_vector)
        requires
            y == ((((b0 as u64) << 56) | ((b1 as u64) << 48) | ((b2 as u64) << 40) | ((b3 as u64)
                << 32) | ((b4 as u64) << 24) | ((b5 as u64) << 16) | ((b6 as u64) << 8) | (b7
                as u64)) as u64),
    ;
}

/// The sixteen big-endian bytes of a `u128`.
pub open spec fn spec_u128_be(x: u128) -> Seq<u8> {
    spec_u64_be((x >> 64) as u64) + spec_u64_be(x as u64)
}

/// The `u128` read from sixteen big-endian bytes.
pub open spec fn spec_u128_from_be(s: Seq<u8>) -> u128
    recommends
        s.len() == 16,
{
    (((spec_u64_from_be(s.subrange(0, 8)) as u128) << 64)
        | (spec_u64_from_be(s.subrange(8, 16)) as u128)) as u128
}

/// Reading back the sixteen big-endian bytes of `x` gives `x`.
pub proof fn lemma_u128_be_roundtrip(x: u128)
    ensures
        spec_u128_from_be(spec_u128_be(x)) == x,
{
    let hi: u64 = (x >> 64) as u64;
    let lo: u64 = x as u64;
    lemma_u64_be_roundtrip(hi);
    lemma_u64_be_roundtrip(lo);
    assert(spec_u128_be(x).subrange(0, 8) =~= spec_u64_be(hi));
    assert(spec_u128_be(x).subrange(8, 16) =~= spec_u64_be(lo));
    assert(((((x >> 64) as u64) as u128) << 64) | ((x as u64) as u128) == x) by (bit_vector);
}

/// The sixteen big-endian bytes of the value read from sixteen bytes are
/// those bytes again.
pub proof fn lemma_u128_be_surjective(s: Seq<u8>)
    requires
        s.len() == 16,
    ensures
        spec_u128_be(spec_u128_from_be(s)) =~= s,
{
    let hi: u64 = spec_u64_from_be(s.subrange(0, 8));
    let lo: u64 = spec_u64_from_be(s.subrange(8, 16));
    let x: u128 = spec_u128_from_be(s);
    assert(x == (((hi as u128) << 64) | (lo as u128)) as u128);
    let y: u128 = (((hi as u128) << 64) | (lo as u128)) as u128;
    assert((y >> 64) as u64 == hi && y as u64 == lo) by (bit_vector)
        requires
            y == (((hi as u128) << 64) | (lo as u128)) as u128,
    ;
    lemma_u64_be_surjective(s.subrange(0, 8));
    lemma_u64_be_surjective(s.subrange(8, 16));
}

/// Appends the big-endian bytes of `x` to `out`.
pub fn push_u128_be(out: &mut Vec<u8>, x: u128)
    ensures
        final(out)@ == old(out)@ + spec_u128_be(x),
{
    push_u64_be(out, (x >> 64) as u64);
    push_u64_be(out, x as u64);
    assert(out@ =~= old(out)@ + spec_u128_be(x));
}

/// Reads a big-endian `u128` from `s` at offset `at`.
pub fn read_u128_be(s: &[u8], at: usize) -> (r: u128)
    requires
        at + 16 <= s@.len(),
    ensures
        r == spec_u128_from_be(s@.subrange(at as int, at + 16)),
{
    let slen: usize = s.len();
    let hi: u64 = read_u64_be(s, at);
    let lo: u64 = read_u64_be(s, at + 8);
    proof {
        let w = s@.subrange(at as int, at + 16);
        assert(w.subrange(0, 8) =~= s@.subrange(at as int, at + 8));
        assert(w.subrange(8, 16) =~= s@.subrange(at + 8, at + 16));
    }
    ((hi as u128) << 64) | (lo as u128)
}

/// Appends all of `piece` to `out`.
pub fn push_bytes(out: &mut Vec<u8>, piece: &[u8])
    ensures
        final(out)@ == old(out)@ + piece@,
{
    out.extend_from_slice(piece);
    assert(out@ =~= old(out)@ + piece@);
}

/// A chunk framed by its length: eight big-endian length bytes, then the chunk.
pub open spec fn spec_framed(piece: Seq<u8>) -> Seq<u8> {
    spec_u64_be(piece.len() as u64) + piece
}

/// Appends `piece` to `out`, prefixed with its length.
pub fn push_framed(out: &mut Vec<u8>, piece: &[u8])
    ensures
        final(out)@ == old(out)@ + spec_framed(piece@),
{
    let n: usize = piece.len();
    push_u64_be(out, n as u64);
    push_bytes(out, piece);
    assert(out@ =~= old(out)@ + spec_framed(piece@));
}

/// Copies `s[at .. at + n]` into a fresh vector.
pub fn copy_range(s: &[u8], at: usize, n: usize) -> (r: Vec<u8>)
    requires
        at + n <= s@.len(),
    ensures
        r@ == s@.subrange(at as int, at + n),
{
    let slen: usize = s.len();
    let mut r: Vec<u8> = Vec::new();
    let mut i: usize = 0;
    while i < n
        invariant
            i <= n,
            at + n <= s@.len(),
            s@.len() <= usize::MAX,
            r@ =~= s@.subrange(at as int, at + i),
        decreases n - i,
    {
        r.push(s[at + i]);
        assert(r@ =~= s@.subrange(at as int, at + i + 1));
        i = i + 1;
    }
    r
}

/// Compares two byte strings for equality.
pub fn eq_bytes(a: &[u8], b: &[u8]) -> (r: bool)
    ensures
        r == (a@ == b@),
{
    if a.len() != b.len() {
        assert(a@ != b@);
        return false;
    }
    let n: usize = a.len();
    let mut i: usize = 0;
    while i < n
        invariant
            i <= n,
            a@.len() == n,
            b@.len() == n,
            forall|j: int| 0 <= j < i ==> a@[j] == b@[j],
        decreases n - i,
    {
        if a[i] != b[i] {
            assert(a@ != b@);
            return false;
        }
        i = i + 1;
    }
    assert(a@ =~= b@);
    true
}

/// Compares two byte strings for equality in constant time: the whole
/// inputs are always walked and the verdict is accumulated bitwise, so the
/// running time does not depend on where they first differ.
pub fn ct_eq_bytes(a: &[u8], b: &[u8]) -> (r: bool)
    ensures
        r == (a@ == b@),
{
    if a.len() != b.len() {
        assert(a@ != b@);
        return false;
    }
    let n: usize = a.len();
    let mut diff: u8 = 0;
    let mut i: usize = 0;
    while i < n
        invariant
            i <= n,
            a@.len() == n,
            b@.len() == n,
            (diff == 0) <==> (forall|j: int| 0 <= j < i ==> a@[j] == b@[j]),
        decreases n - i,
    {
        let ai: u8 = a[i];
        let bi: u8 = b[i];
        proof {
            assert(((ai ^ bi) == 0) == (ai == bi)) by (bit_vector);
            assert(((diff | (ai ^ bi)) == 0) == (diff == 0 && (ai ^ bi) == 0)) by (bit_vector);
        }
        diff = diff | (ai ^ bi);
        i = i + 1;
    }
    if diff == 0 {
        assert(a@ =~= b@);
        true
    } else {
        assert(a@ != b@);
        false
    }
}

/// Strict lexicographic order on byte strings: a proper prefix comes first,
/// and otherwise the first differing byte decides.
pub open spec fn spec_lex_lt(a: Seq<u8>, b: Seq<u8>) -> bool
    decreases a.len(),
{
    if b.len() == 0 {
        false
    } else if a.len() == 0 {
        true
    } else if a[0] < b[0] {
        true
    } else if a[0] > b[0] {
        false
    } else {
        spec_lex_lt(a.drop_first(), b.drop_first())
    }
}

/// Compares two byte strings lexicographically; returns a negative, zero or
/// positive verdict as `a` comes before, equals or comes after `b`.
pub fn lex_cmp(a: &[u8], b: &[u8]) -> (r: i8)
    ensures
        -1 <= r <= 1,
        (r == -1) == spec_lex_lt(a@, b@),
        (r == 0) == (a@ == b@),
        (r == 1) == spec_lex_lt(b@, a@),
{
    let an: usize = a.len();
    let bn: usize = b.len();
    let n: usize = if an < bn { an } else { bn };
    let mut i: usize = 0;
    proof {
        assert(a@.skip(0) =~= a@);
        assert(b@.skip(0) =~= b@);
    }
    while i < n
        invariant
            i <= n,
            n == if an < bn { an } else { bn },
            a@.len() == an,
            b@.len() == bn,
            forall|j: int| 0 <= j < i ==> a@[j] == b@[j],
            spec_lex_lt(a@, b@) == spec_lex_lt(a@.skip(i as int), b@.skip(i as int)),
            spec_lex_lt(b@, a@) == spec_lex_lt(b@.skip(i as int), a@.skip(i as int)),
        decreases n - i,
    {
        if a[i] < b[i] {
            proof {
                assert(a@.skip(i as int)[0] == a@[i as int]);
                assert(b@.skip(i as int)[0] == b@[i as int]);
                assert(a@ != b@);
            }
            return -1;
        }
        if a[i] > b[i] {
            proof {
                assert(a@.skip(i as int)[0] == a@[i as int]);
                assert(b@.skip(i as int)[0] == b@[i as int]);
                assert(a@ != b@);
            }
            return 1;
        }
        proof {
            assert(a@.skip(i as int)[0] == a@[i as int]);
            assert(b@.skip(i as int)[0] == b@[i as int]);
            assert(a@.skip(i as int).drop_first() =~= a@.skip(i + 1));
            assert(b@.skip(i as int).drop_first() =~= b@.skip(i + 1));
        }
        i = i + 1;
    }
    proof {
        assert(a@.skip(i as int).len() == an - i);
        assert(b@.skip(i as int).len() == bn - i);
    }
    if an < bn {
        proof {
            assert(spec_lex_lt(a@.skip(i as int), b@.skip(i as int)));
            assert(a@ != b@);
            assert(!spec_lex_lt(b@.skip(i as int), a@.skip(i as int)));
        }
        -1
    } else if an > bn {
        proof {
            assert(spec_lex_lt(b@.skip(i as int), a@.skip(i as int)));
            assert(b@ != a@);
            assert(!spec_lex_lt(a@.skip(i as int), b@.skip(i as int)));
        }
        1
    } else {
        proof {
            assert(a@ =~= b@);
            assert(!spec_lex_lt(a@.skip(i as int), b@.skip(i as int)));
        }
        0
    }
}

/// Reads one length-framed chunk at offset `at`; returns the chunk and the
/// offset just past it, or `None` if the frame overruns the input.
pub fn read_framed(s: &[u8], at: usize) -> (r: Option<(Vec<u8>, usize)>)
    ensures
        match r {
            Some((piece, next)) => {
                &&& at + 8 <= s@.len()
                &&& piece@.len() == spec_u64_from_be(s@.subrange(at as int, at + 8))
                &&& next == at + 8 + piece@.len()
                &&& next <= s@.len()
                &&& piece@ == s@.subrange(at + 8, next as int)
            },
            None => true,
        },
        // a well-formed frame is always read back
        (at + 8 <= s@.len() && at + 8 + spec_u64_from_be(s@.subrange(at as int, at + 8))
            <= s@.len()) ==> r is Some,
{
    if at > s.len() || s.len() - at < 8 {
        return None;
    }
    let len64: u64 = read_u64_be(s, at);
    if len64 > (usize::MAX) as u64 {
        return None;
    }
    let len: usize = len64 as usize;
    if s.len() - at - 8 < len {
        return None;
    }
    let piece: Vec<u8> = copy_range(s, at + 8, len);
    Some((piece, at + 8 + len))
}

/// Framing round trip: a frame written at the end of `prefix` is read back
/// exactly, and the cursor lands after it.
pub proof fn lemma_framed_roundtrip(prefix: Seq<u8>, piece: Seq<u8>, suffix: Seq<u8>)
    requires
        piece.len() <= u64::MAX,
    ensures
        ({
            let s = prefix + spec_framed(piece) + suffix;
            &&& s.subrange(prefix.len() as int, prefix.len() as int + 8) =~= spec_u64_be(
                piece.len() as u64,
            )
            &&& spec_u64_from_be(s.subrange(prefix.len() as int, prefix.len() as int + 8))
                == piece.len()
            &&& s.subrange(prefix.len() as int + 8, prefix.len() as int + 8 + piece.len() as int) =~= piece
        }),
{
    let s = prefix + spec_framed(piece) + suffix;
    assert(s.subrange(prefix.len() as int, prefix.len() as int + 8) =~= spec_u64_be(piece.len() as u64));
    lemma_u64_be_roundtrip(piece.len() as u64);
    assert(s.subrange(prefix.len() as int + 8, prefix.len() as int + 8 + piece.len() as int) =~= piece);
}

} // verus!

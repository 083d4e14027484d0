//! Small byte-buffer helpers shared by the framing and derivation code.

use vstd::prelude::*;

verus! {

/// The two-byte big-endian encoding of `v`.
pub open spec fn be16(v: nat) -> Seq<u8> {
    seq![((v / 256) % 256) as u8, (v % 256) as u8]
}

/// The four-byte big-endian encoding of `v`.
pub open spec fn be32(v: nat) -> Seq<u8> {
    seq![
        ((v / 0x1000000) % 256) as u8,
        ((v / 0x10000) % 256) as u8,
        ((v / 0x100) % 256) as u8,
        (v % 256) as u8,
    ]
}

/// A run of `k` zero bytes.
pub open spec fn zeros(k: nat) -> Seq<u8> {
    Seq::new(k, |i: int| 0u8)
}

/// A fresh buffer of `len` zero bytes.
pub fn zero_vec(len: usize) -> (r: Vec<u8>)
    ensures
        r@ == zeros(len as nat),
        r@.len() == len,
{
    let mut out: Vec<u8> = Vec::new();
    let mut i: usize = 0;
    while i < len
        invariant
            i <= len,
            out@ == zeros(i as nat),
        decreases len - i,
    {
        out.push(0u8);
        proof {
            assert(zeros(i as nat) + seq![0u8] =~= zeros((i + 1) as nat));
        }
        i += 1;
    }
    out
}

/// The value read back from a two-byte big-endian encoding.
pub open spec fn be16_value(hi: u8, lo: u8) -> nat {
    (hi * 256 + lo) as nat
}

/// Reading back a two-byte big-endian encoding gives the encoded value.
pub proof fn lemma_be16_round_trip(v: nat)
    requires
        v < 0x10000,
    ensures
        be16_value(be16(v)[0], be16(v)[1]) == v,
{
    assert(v / 256 < 256);
    assert((v / 256) % 256 == v / 256);
    assert((v / 256) * 256 + v % 256 == v) by (nonlinear_arith);
}

/// Appends every byte of `src` to `dst`.
pub fn push_all(dst: &mut Vec<u8>, src: &[u8])
    ensures
        final(dst)@ == old(dst)@ + src@,
{
    let ghost dst0 = dst@;
    let mut i: usize = 0;
    while i < src.len()
        invariant
            i <= src@.len(),
            dst@ == dst0 + src@.subrange(0, i as int),
        decreases src@.len() - i,
    {
        dst.push(src[i]);
        proof {
            assert(dst0 + src@.subrange(0, i as int) + seq![src@[i as int]] =~= dst0
                + src@.subrange(0, i + 1));
        }
        i += 1;
    }
    proof {
        assert(src@.subrange(0, src@.len() as int) =~= src@);
    }
}

/// Copies `src[from..to]` into a fresh buffer.
pub fn copy_range(src: &[u8], from: usize, to: usize) -> (r: Vec<u8>)
    requires
        from <= to <= src@.len(),
    ensures
        r@ == src@.subrange(from as int, to as int),
{
    let mut out: Vec<u8> = Vec::new();
    let mut i: usize = from;
    while i < to
        invariant
            from <= i <= to <= src@.len(),
            out@ == src@.subrange(from as int, i as int),
        decreases to - i,
    {
        out.push(src[i]);
        proof {
            assert(src@.subrange(from as int, i as int) + seq![src@[i as int]] =~= src@.subrange(
                from as int,
                i + 1,
            ));
        }
        i += 1;
    }
    out
}

/// Appends the two-byte big-endian encoding of `v` to `dst`.
pub fn push_be16(dst: &mut Vec<u8>, v: u16)
    ensures
        final(dst)@ == old(dst)@ + be16(v as nat),
{
    let ghost dst0 = dst@;
    dst.push((v / 256) as u8);
    dst.push((v % 256) as u8);
    proof {
        assert(dst@ =~= dst0 + be16(v as nat));
    }
}

/// Whether `pattern` occurs in `buf` starting at `at`.
pub open spec fn matches_at(buf: Seq<u8>, at: int, pattern: Seq<u8>) -> bool {
    &&& 0 <= at
    &&& at + pattern.len() <= buf.len()
    &&& buf.subrange(at, at + pattern.len()) == pattern
}

/// Compares `buf[at..at + pattern.len()]` with `pattern`.
pub fn bytes_match_at(buf: &[u8], at: usize, pattern: &[u8]) -> (r: bool)
    ensures
        r == matches_at(buf@, at as int, pattern@),
{
    if pattern.len() > buf.len() || at > buf.len() - pattern.len() {
        proof {
            assert(!matches_at(buf@, at as int, pattern@));
        }
        return false;
    }
    let stop: usize = at + pattern.len();
    let mut i: usize = 0;
    while i < pattern.len()
        invariant
            i <= pattern@.len(),
            at + pattern@.len() <= buf@.len(),
            stop == at + pattern@.len(),
            buf@.subrange(at as int, at + i) == pattern@.subrange(0, i as int),
        decreases pattern@.len() - i,
    {
        if buf[at + i] != pattern[i] {
            proof {
                assert(buf@.subrange(at as int, at + pattern@.len())[i as int] == buf@[at + i]);
                assert(!matches_at(buf@, at as int, pattern@));
            }
            return false;
        }
        proof {
            assert(buf@.subrange(at as int, at + i) + seq![buf@[at + i]] =~= buf@.subrange(
                at as int,
                at + i + 1,
            ));
            assert(pattern@.subrange(0, i as int) + seq![pattern@[i as int]] =~= pattern@.subrange(
                0,
                i + 1,
            ));
        }
        i += 1;
    }
    proof {
        assert(buf@.subrange(at as int, at + pattern@.len()) =~= pattern@);
    }
    true
}

} // verus!

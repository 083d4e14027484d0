//! Block-cipher padding of command and response payloads.
//!
//! Plaintext is always extended by a single `0x80` marker byte and then by
//! zero bytes up to the next cipher-block boundary, so every padded payload
//! grows by at least one byte and decodes unambiguously.

use vstd::prelude::*;

use crate::bytes::{copy_range, zeros};

verus! {

/// AES cipher block size in bytes.
pub const CIPHER_BLOCK_SIZE: usize = 16;

/// Length of a payload of `n` bytes after padding: at least one byte more,
/// rounded up to a whole number of cipher blocks.
pub open spec fn padded_len(n: nat) -> nat {
    ((n + 16) / 16) * 16
}

/// Basic bounds of [`padded_len`]: padding adds one to sixteen bytes and
/// ends on a block boundary.
pub proof fn lemma_padded_len(n: nat)
    ensures
        n < padded_len(n) <= n + 16,
        padded_len(n) % 16 == 0,
{
    let q = (n + 16) / 16;
    assert(q * 16 % 16 == 0) by (nonlinear_arith);
    assert(n < q * 16 <= n + 16) by (nonlinear_arith)
        requires
            q == (n + 16) / 16,
    ;
}

/// The padded form of `m`: the payload, the `0x80` marker, then zeros up to
/// the block boundary.
pub open spec fn pad_spec(m: Seq<u8>) -> Seq<u8> {
    m + seq![0x80u8] + zeros((padded_len(m.len()) - m.len() - 1) as nat)
}

/// The payload a padded buffer decodes to: trailing zeros are removed, the
/// byte before them must be the `0x80` marker, and everything before the
/// marker is the payload. Any other shape is rejected.
pub open spec fn unpad_spec(p: Seq<u8>) -> Option<Seq<u8>>
    decreases p.len(),
{
    if p.len() == 0 {
        None
    } else if p.last() == 0u8 {
        unpad_spec(p.drop_last())
    } else if p.last() == 0x80u8 {
        Some(p.drop_last())
    } else {
        None
    }
}

/// Pads `m` to the next block boundary.
pub fn pad(m: &[u8]) -> (r: Vec<u8>)
    requires
        m@.len() + 16 <= usize::MAX,
    ensures
        r@ == pad_spec(m@),
        r@.len() == padded_len(m@.len()),
        r@.len() % 16 == 0,
        m@.len() < r@.len() <= m@.len() + 16,
{
    proof {
        lemma_padded_len(m@.len());
    }
    let n = m.len();
    let target: usize = ((n + 16) / 16) * 16;
    let mut out = copy_range(m, 0, n);
    out.push(0x80u8);
    proof {
        assert(m@.subrange(0, m@.len() as int) =~= m@);
        assert(out@ =~= m@ + seq![0x80u8] + zeros(0));
    }
    while out.len() < target
        invariant
            m@.len() + 1 <= out@.len() <= target,
            target == padded_len(m@.len()),
            out@ == m@ + seq![0x80u8] + zeros((out@.len() - m@.len() - 1) as nat),
        decreases target - out@.len(),
    {
        let ghost k = (out@.len() - m@.len() - 1) as nat;
        out.push(0u8);
        proof {
            assert(m@ + seq![0x80u8] + zeros(k) + seq![0u8] =~= m@ + seq![0x80u8] + zeros(k + 1));
        }
    }
    out
}

/// Removes the padding from `p`, if `p` is well padded.
pub fn unpad(p: &[u8]) -> (r: Option<Vec<u8>>)
    ensures
        match unpad_spec(p@) {
            Some(m) => r matches Some(v) && v@ == m,
            None => r is None,
        },
{
    let mut i: usize = p.len();
    proof {
        assert(p@.subrange(0, p@.len() as int) =~= p@);
    }
    while i > 0 && p[i - 1] == 0u8
        invariant
            i <= p@.len(),
            unpad_spec(p@) == unpad_spec(p@.subrange(0, i as int)),
        decreases i,
    {
        proof {
            let q = p@.subrange(0, i as int);
            assert(q.last() == 0u8);
            assert(q.drop_last() =~= p@.subrange(0, i - 1));
        }
        i = i - 1;
    }
    if i == 0 {
        proof {
            assert(p@.subrange(0, 0) =~= Seq::<u8>::empty());
        }
        None
    } else if p[i - 1] == 0x80u8 {
        proof {
            let q = p@.subrange(0, i as int);
            assert(q.last() == 0x80u8);
            assert(q.drop_last() =~= p@.subrange(0, i - 1));
        }
        Some(copy_range(p, 0, i - 1))
    } else {
        None
    }
}

/// Appending zeros never changes what a buffer unpads to.
proof fn lemma_unpad_zeros(q: Seq<u8>, k: nat)
    ensures
        unpad_spec(q + zeros(k)) == unpad_spec(q),
    decreases k,
{
    if k == 0 {
        assert(q + zeros(0) =~= q);
    } else {
        let p = q + zeros(k);
        assert(p.last() == 0u8);
        assert(p.drop_last() =~= q + zeros((k - 1) as nat));
        lemma_unpad_zeros(q, (k - 1) as nat);
    }
}

/// Round trip of the padding scheme: unpadding a padded payload gives the
/// payload back, for payloads of any length.
pub proof fn lemma_unpad_pad(m: Seq<u8>)
    ensures
        unpad_spec(pad_spec(m)) == Some(m),
{
    lemma_padded_len(m.len());
    let marked = m + seq![0x80u8];
    let k = (padded_len(m.len()) - m.len() - 1) as nat;
    assert(pad_spec(m) =~= marked + zeros(k));
    lemma_unpad_zeros(marked, k);
    assert(marked.last() == 0x80u8);
    assert(marked.drop_last() =~= m);
}

} // verus!

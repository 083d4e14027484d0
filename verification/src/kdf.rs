//! CMAC-based key derivation in counter mode.
//!
//! Every session key and cryptogram of the channel comes out of [`derive`]:
//! a CMAC, under the input key, over a fixed-layout message that binds a
//! two-byte block counter, the purpose label, the session context and the
//! requested output length in bits. Only single-block outputs are supported;
//! a longer request fails rather than silently truncating.

use vstd::prelude::*;

use crate::bytes::{be16, push_all, push_be16};
use crate::crypto::{cmac_of, compute_cmac};
use crate::error::SecureChannelError;

verus! {

/// Cipher block size in bytes, the most a single derivation can produce.
pub const DERIVE_BLOCK_SIZE: usize = 16;

/// Derivation label of the session encryption key.
pub const LABEL_SESSION_ENC: u8 = 0x04;

/// Derivation label of the session command-MAC key.
pub const LABEL_SESSION_MAC: u8 = 0x06;

/// Derivation label of the session response-MAC key.
pub const LABEL_SESSION_RMAC: u8 = 0x07;

/// Derivation label of the device cryptogram.
pub const LABEL_DEVICE_CRYPTOGRAM: u8 = 0x00;

/// Derivation label of the host cryptogram.
pub const LABEL_HOST_CRYPTOGRAM: u8 = 0x01;

/// The fixed-layout message that one derivation authenticates: block counter
/// (two bytes, big-endian, starting at 1), label, a zero separator, the
/// context, and the output length in bits (two bytes, big-endian).
pub open spec fn kdf_message(label: u8, context: Seq<u8>, output_len: nat) -> Seq<u8> {
    seq![0u8, 1u8] + seq![label] + seq![0u8] + context + be16(output_len * 8)
}

/// What [`derive`] returns for an accepted output length: the CMAC of the
/// derivation message under `key`, truncated to `output_len` bytes.
pub open spec fn derive_spec(key: Seq<u8>, label: u8, context: Seq<u8>, output_len: nat) -> Seq<
    u8,
> {
    cmac_of(key, kdf_message(label, context, output_len)).take(output_len as int)
}

/// Derives `output_len` bytes for the given purpose `label` and `context`
/// from `key`.
pub fn derive(key: &[u8], label: u8, context: &[u8], output_len: usize) -> (r: Result<
    Vec<u8>,
    SecureChannelError,
>)
    requires
        key@.len() == 16,
    ensures
        output_len <= DERIVE_BLOCK_SIZE ==> {
            &&& r matches Ok(out)
            &&& out@ == derive_spec(key@, label, context@, output_len as nat)
            &&& out@.len() == output_len
        },
        output_len > DERIVE_BLOCK_SIZE ==> r == Err::<Vec<u8>, SecureChannelError>(
            SecureChannelError::KeyLengthInvalid,
        ),
{
    if output_len > DERIVE_BLOCK_SIZE {
        return Err(SecureChannelError::KeyLengthInvalid);
    }
    let mut message: Vec<u8> = Vec::new();
    message.push(0u8);
    message.push(1u8);
    message.push(label);
    message.push(0u8);
    push_all(&mut message, context);
    push_be16(&mut message, (output_len as u16) * 8);
    proof {
        assert(message@ =~= kdf_message(label, context@, output_len as nat));
    }
    let mut out = compute_cmac(key, message.as_slice());
    out.truncate(output_len);
    proof {
        assert(out@ =~= derive_spec(key@, label, context@, output_len as nat));
    }
    Ok(out)
}

/// KDF determinism: a derivation is a function of key, label, context and
/// output length alone — two derivations with equal inputs yield the
/// identical output.
pub proof fn lemma_kdf_deterministic(
    key1: Seq<u8>,
    label1: u8,
    context1: Seq<u8>,
    len1: nat,
    key2: Seq<u8>,
    label2: u8,
    context2: Seq<u8>,
    len2: nat,
)
    requires
        key1 == key2,
        label1 == label2,
        context1 == context2,
        len1 == len2,
    ensures
        derive_spec(key1, label1, context1, len1) == derive_spec(key2, label2, context2, len2),
{
}

/// KDF label separation: derivations with different labels but identical
/// key and context authenticate different derivation messages, so the two
/// outputs are CMACs of distinct inputs.
pub proof fn lemma_kdf_label_separation(label1: u8, label2: u8, context: Seq<u8>, len: nat)
    requires
        label1 != label2,
    ensures
        kdf_message(label1, context, len) != kdf_message(label2, context, len),
{
    assert(kdf_message(label1, context, len)[2] == label1);
    assert(kdf_message(label2, context, len)[2] == label2);
}

} // verus!

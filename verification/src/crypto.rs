//! Trusted boundary to the cryptographic primitives.
//!
//! The channel's contracts are stated over three named results —
//! [`cmac_of`], [`cbc_enc_of`] and [`cbc_dec_of`] — because the value of an
//! AES-based MAC or cipher output cannot be restated here in a few lines.
//! Each name stands for the output of exactly one outside function, which
//! depends on the listed arguments alone.

use vstd::prelude::*;

use aes::cipher::generic_array::GenericArray;
use aes::cipher::{BlockDecryptMut, BlockEncryptMut, KeyIvInit};
use cmac::Mac as CmacMac;
use rand::RngCore;
use subtle::ConstantTimeEq;

verus! {

/// The AES-128-CMAC of `data` under `key`, as `cmac::Cmac<aes::Aes128>`
/// computes it: one cipher block (16 bytes) long.
pub uninterp spec fn cmac_of(key: Seq<u8>, data: Seq<u8>) -> Seq<u8>;

/// The AES-128-CBC encryption of the block-aligned `plaintext` under `key`
/// and `iv`, as `cbc::Encryptor<aes::Aes128>` computes it.
pub uninterp spec fn cbc_enc_of(key: Seq<u8>, iv: Seq<u8>, plaintext: Seq<u8>) -> Seq<u8>;

/// The AES-128-CBC decryption of the block-aligned `ciphertext` under `key`
/// and `iv`, as `cbc::Decryptor<aes::Aes128>` computes it.
pub uninterp spec fn cbc_dec_of(key: Seq<u8>, iv: Seq<u8>, ciphertext: Seq<u8>) -> Seq<u8>;

/// Relies on `cmac::Cmac<aes::Aes128>` (`new_from_slice`, `update`,
/// `finalize`): AES-128-CMAC over `data` under the 16-byte `key`; the result
/// is one cipher block long and depends on key and data alone.
#[verifier::external_body]
pub(crate) fn compute_cmac(key: &[u8], data: &[u8]) -> (r: Vec<u8>)
    requires
        key@.len() == 16,
    ensures
        r@ == cmac_of(key@, data@),
        r@.len() == 16,
{
    let mut mac = cmac::Cmac::<aes::Aes128>::new_from_slice(key).expect("key is one block long");
    mac.update(data);
    mac.finalize().into_bytes().to_vec()
}

/// Relies on `cbc::Encryptor<aes::Aes128>`: AES-128-CBC encryption of a
/// block-aligned buffer. CBC mode is invertible, so decrypting the result
/// under the same key and IV gives the plaintext back.
#[verifier::external_body]
pub(crate) fn cbc_encrypt(key: &[u8], iv: &[u8], plaintext: &[u8]) -> (r: Vec<u8>)
    requires
        key@.len() == 16,
        iv@.len() == 16,
        plaintext@.len() % 16 == 0,
    ensures
        r@ == cbc_enc_of(key@, iv@, plaintext@),
        r@.len() == plaintext@.len(),
        cbc_dec_of(key@, iv@, r@) == plaintext@,
{
    let mut enc = cbc::Encryptor::<aes::Aes128>::new_from_slices(key, iv)
        .expect("key and iv are one block long");
    let mut out = plaintext.to_vec();
    for block in out.chunks_exact_mut(16) {
        enc.encrypt_block_mut(GenericArray::from_mut_slice(block));
    }
    out
}

/// Relies on `cbc::Decryptor<aes::Aes128>`: AES-128-CBC decryption of a
/// block-aligned buffer. CBC mode is invertible, so encrypting the result
/// under the same key and IV gives the ciphertext back.
#[verifier::external_body]
pub(crate) fn cbc_decrypt(key: &[u8], iv: &[u8], ciphertext: &[u8]) -> (r: Vec<u8>)
    requires
        key@.len() == 16,
        iv@.len() == 16,
        ciphertext@.len() % 16 == 0,
    ensures
        r@ == cbc_dec_of(key@, iv@, ciphertext@),
        r@.len() == ciphertext@.len(),
        cbc_enc_of(key@, iv@, r@) == ciphertext@,
{
    let mut dec = cbc::Decryptor::<aes::Aes128>::new_from_slices(key, iv)
        .expect("key and iv are one block long");
    let mut out = ciphertext.to_vec();
    for block in out.chunks_exact_mut(16) {
        dec.decrypt_block_mut(GenericArray::from_mut_slice(block));
    }
    out
}

/// Relies on `subtle::ConstantTimeEq` for byte slices: equality that runs in
/// time independent of the contents; slices of different lengths compare
/// unequal.
#[verifier::external_body]
pub(crate) fn constant_time_eq(a: &[u8], b: &[u8]) -> (r: bool)
    ensures
        r == (a@ == b@),
{
    bool::from(a.ct_eq(b))
}

/// Relies on `rand::thread_rng` (`fill_bytes`): a buffer of `len` random
/// bytes. Nothing is promised of the contents.
#[verifier::external_body]
pub(crate) fn random_bytes(len: usize) -> (r: Vec<u8>)
    ensures
        r@.len() == len,
{
    let mut buf = vec![0u8; len];
    rand::thread_rng().fill_bytes(&mut buf);
    buf
}

} // verus!

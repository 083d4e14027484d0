//! Key derivation behaviour, checked against an independent CMAC
//! computation and across simulated host and device ends.

use aes::Aes128;
use cmac::{Cmac, Mac};

use yubihsm_channel::kdf::{
    DERIVE_BLOCK_SIZE, LABEL_DEVICE_CRYPTOGRAM, LABEL_HOST_CRYPTOGRAM, LABEL_SESSION_ENC,
    LABEL_SESSION_MAC, LABEL_SESSION_RMAC,
};
use yubihsm_channel::kdf::derive as kdf_derive;
use yubihsm_channel::SecureChannelError;

/// The static MAC key of the concrete scenario: `0x10..0x1f`.
fn scenario_mac_key() -> Vec<u8> {
    (0x10u8..0x20u8).collect()
}

/// The context of the concrete scenario: host challenge
/// `0x0102030405060708` followed by device challenge `0x1112131415161718`.
fn scenario_context() -> Vec<u8> {
    vec![1, 2, 3, 4, 5, 6, 7, 8, 0x11, 0x12, 0x13, 0x14, 0x15, 0x16, 0x17, 0x18]
}

/// The derivation message: counter 1 (two bytes), label, zero separator,
/// context, output length in bits (two bytes) — computed independently.
fn reference_derive(key: &[u8], label: u8, context: &[u8], output_len: usize) -> Vec<u8> {
    let bits = (output_len * 8) as u16;
    let mut message = vec![0u8, 1u8, label, 0u8];
    message.extend_from_slice(context);
    message.push((bits / 256) as u8);
    message.push((bits % 256) as u8);
    let mut mac = Cmac::<Aes128>::new_from_slice(key).unwrap();
    mac.update(&message);
    let full = mac.finalize().into_bytes();
    full[..output_len].to_vec()
}

#[test]
fn kdf_matches_independent_cmac() {
    let key = scenario_mac_key();
    let context = scenario_context();
    for label in [
        LABEL_SESSION_ENC,
        LABEL_SESSION_MAC,
        LABEL_SESSION_RMAC,
        LABEL_DEVICE_CRYPTOGRAM,
        LABEL_HOST_CRYPTOGRAM,
    ] {
        for len in [8usize, 16usize] {
            let out = kdf_derive(&key, label, &context, len).unwrap();
            assert_eq!(out, reference_derive(&key, label, &context, len));
            assert_eq!(out.len(), len);
        }
    }
}

#[test]
fn kdf_deterministic() {
    let key = scenario_mac_key();
    let context = scenario_context();
    let a = kdf_derive(&key, LABEL_SESSION_ENC, &context, 16).unwrap();
    let b = kdf_derive(&key, LABEL_SESSION_ENC, &context, 16).unwrap();
    assert_eq!(a, b);
}

#[test]
fn kdf_label_separation() {
    let key = scenario_mac_key();
    let context = scenario_context();
    let enc = kdf_derive(&key, LABEL_SESSION_ENC, &context, 16).unwrap();
    let mac = kdf_derive(&key, LABEL_SESSION_MAC, &context, 16).unwrap();
    let rmac = kdf_derive(&key, LABEL_SESSION_RMAC, &context, 16).unwrap();
    assert_ne!(enc, mac);
    assert_ne!(enc, rmac);
    assert_ne!(mac, rmac);
    let device = kdf_derive(&key, LABEL_DEVICE_CRYPTOGRAM, &context, 8).unwrap();
    let host = kdf_derive(&key, LABEL_HOST_CRYPTOGRAM, &context, 8).unwrap();
    assert_ne!(device, host);
}

#[test]
fn kdf_depends_on_context() {
    let key = scenario_mac_key();
    let mut other_context = scenario_context();
    other_context[15] ^= 1;
    let a = kdf_derive(&key, LABEL_SESSION_ENC, &scenario_context(), 16).unwrap();
    let b = kdf_derive(&key, LABEL_SESSION_ENC, &other_context, 16).unwrap();
    assert_ne!(a, b);
}

#[test]
fn kdf_rejects_output_longer_than_a_block() {
    let key = scenario_mac_key();
    let context = scenario_context();
    let r = kdf_derive(&key, LABEL_SESSION_ENC, &context, DERIVE_BLOCK_SIZE + 1);
    assert_eq!(r.unwrap_err(), SecureChannelError::KeyLengthInvalid);
}

//! The long-term pre-shared key pair.

use vstd::prelude::*;

use crate::error::SecureChannelError;
use crate::KEY_SIZE;

verus! {

/// The long-term pre-shared symmetric key set: one encryption key and one
/// MAC key, each exactly one AES key long. Static keys are used only during
/// bootstrap to derive session keys and are never transmitted.
pub struct StaticKeys {
    pub(crate) enc_key: Vec<u8>,
    pub(crate) mac_key: Vec<u8>,
}

/// The mathematical value of a [`StaticKeys`]: both raw key strings.
pub struct StaticKeysView {
    pub enc_key: Seq<u8>,
    pub mac_key: Seq<u8>,
}

impl View for StaticKeys {
    type V = StaticKeysView;

    closed spec fn view(&self) -> StaticKeysView {
        StaticKeysView { enc_key: self.enc_key@, mac_key: self.mac_key@ }
    }
}

impl StaticKeys {
    /// Both keys are exactly [`KEY_SIZE`] bytes.
    pub open spec fn wf(&self) -> bool {
        &&& self@.enc_key.len() == KEY_SIZE
        &&& self@.mac_key.len() == KEY_SIZE
    }

    /// Builds the key set, rejecting any key that is not exactly
    /// [`KEY_SIZE`] bytes.
    pub fn new(enc_key: Vec<u8>, mac_key: Vec<u8>) -> (r: Result<StaticKeys, SecureChannelError>)
        ensures
            enc_key@.len() == KEY_SIZE && mac_key@.len() == KEY_SIZE ==> {
                &&& r matches Ok(keys)
                &&& keys@.enc_key == enc_key@
                &&& keys@.mac_key == mac_key@
                &&& keys.wf()
            },
            !(enc_key@.len() == KEY_SIZE && mac_key@.len() == KEY_SIZE) ==> r == Err::<
                StaticKeys,
                SecureChannelError,
            >(SecureChannelError::KeyLengthInvalid),
    {
        if enc_key.len() != KEY_SIZE || mac_key.len() != KEY_SIZE {
            return Err(SecureChannelError::KeyLengthInvalid);
        }
        Ok(StaticKeys { enc_key, mac_key })
    }

    /// The long-term encryption key.
    pub fn enc_key(&self) -> (r: &Vec<u8>)
        ensures
            r@ == self@.enc_key,
    {
        &self.enc_key
    }

    /// The long-term MAC key, the input of every session-key derivation.
    pub fn mac_key(&self) -> (r: &Vec<u8>)
        ensures
            r@ == self@.mac_key,
    {
        &self.mac_key
    }
}

} // verus!

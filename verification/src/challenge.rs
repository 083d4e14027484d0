//! Bootstrap challenges.

use vstd::prelude::*;

use crate::crypto::random_bytes;
use crate::error::SecureChannelError;

verus! {

/// Challenge length in bytes.
pub const CHALLENGE_SIZE: usize = 8;

/// An 8-byte nonce. Host and device each contribute one per session
/// attempt; the pair forms the derivation context, so a fresh challenge
/// keys every bootstrap differently.
#[derive(Debug)]
pub struct Challenge {
    pub(crate) bytes: Vec<u8>,
}

impl View for Challenge {
    type V = Seq<u8>;

    closed spec fn view(&self) -> Seq<u8> {
        self.bytes@
    }
}

impl Challenge {
    /// A challenge is exactly [`CHALLENGE_SIZE`] bytes.
    pub open spec fn wf(&self) -> bool {
        self@.len() == CHALLENGE_SIZE
    }

    /// Builds a challenge from given bytes, rejecting any length other than
    /// [`CHALLENGE_SIZE`].
    pub fn new(bytes: Vec<u8>) -> (r: Result<Challenge, SecureChannelError>)
        ensures
            bytes@.len() == CHALLENGE_SIZE ==> {
                &&& r matches Ok(c)
                &&& c@ == bytes@
                &&& c.wf()
            },
            bytes@.len() != CHALLENGE_SIZE ==> r == Err::<Challenge, SecureChannelError>(
                SecureChannelError::FramingError,
            ),
    {
        if bytes.len() != CHALLENGE_SIZE {
            return Err(SecureChannelError::FramingError);
        }
        Ok(Challenge { bytes })
    }

    /// Generates a fresh random challenge.
    pub fn random() -> (r: Challenge)
        ensures
            r.wf(),
    {
        Challenge { bytes: random_bytes(CHALLENGE_SIZE) }
    }

    /// The raw challenge bytes.
    pub fn as_slice(&self) -> (r: &[u8])
        ensures
            r@ == self@,
    {
        self.bytes.as_slice()
    }
}

} // verus!

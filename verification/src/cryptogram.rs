//! Key-agreement authenticators.

use vstd::prelude::*;

use crate::crypto::constant_time_eq;
use crate::error::SecureChannelError;

verus! {

/// Cryptogram length in bytes.
pub const CRYPTOGRAM_SIZE: usize = 8;

/// An 8-byte authenticator derived from the session MAC key and the
/// bootstrap context. One is exchanged in each direction to prove that both
/// ends derived the same session keys; a session is trusted only after its
/// cryptograms verified.
#[derive(Debug)]
pub struct Cryptogram {
    pub(crate) bytes: Vec<u8>,
}

impl View for Cryptogram {
    type V = Seq<u8>;

    closed spec fn view(&self) -> Seq<u8> {
        self.bytes@
    }
}

impl Cryptogram {
    /// A cryptogram is exactly [`CRYPTOGRAM_SIZE`] bytes.
    pub open spec fn wf(&self) -> bool {
        self@.len() == CRYPTOGRAM_SIZE
    }

    /// Builds a cryptogram from given bytes, rejecting any length other
    /// than [`CRYPTOGRAM_SIZE`].
    pub fn new(bytes: Vec<u8>) -> (r: Result<Cryptogram, SecureChannelError>)
        ensures
            bytes@.len() == CRYPTOGRAM_SIZE ==> {
                &&& r matches Ok(c)
                &&& c@ == bytes@
                &&& c.wf()
            },
            bytes@.len() != CRYPTOGRAM_SIZE ==> r == Err::<Cryptogram, SecureChannelError>(
                SecureChannelError::FramingError,
            ),
    {
        if bytes.len() != CRYPTOGRAM_SIZE {
            return Err(SecureChannelError::FramingError);
        }
        Ok(Cryptogram { bytes })
    }

    /// Wraps already-derived cryptogram bytes.
    pub(crate) fn from_bytes(bytes: Vec<u8>) -> (r: Cryptogram)
        requires
            bytes@.len() == CRYPTOGRAM_SIZE,
        ensures
            r@ == bytes@,
            r.wf(),
    {
        Cryptogram { bytes }
    }

    /// Compares two cryptograms in constant time.
    pub fn matches_ct(&self, other: &Cryptogram) -> (r: bool)
        ensures
            r == (self@ == other@),
    {
        constant_time_eq(self.bytes.as_slice(), other.bytes.as_slice())
    }

    /// The raw cryptogram bytes.
    pub fn as_slice(&self) -> (r: &[u8])
        ensures
            r@ == self@,
    {
        self.bytes.as_slice()
    }
}

} // verus!

//! The per-bootstrap derivation context.

use vstd::prelude::*;

use crate::bytes::push_all;
use crate::challenge::Challenge;

verus! {

/// Context length in bytes: two concatenated challenges.
pub const CONTEXT_SIZE: usize = 16;

/// The derivation and authentication context of one bootstrap attempt:
/// host challenge followed by device challenge. Every key derivation of
/// that bootstrap takes it as input.
#[derive(Debug)]
pub struct Context {
    pub(crate) bytes: Vec<u8>,
}

impl View for Context {
    type V = Seq<u8>;

    closed spec fn view(&self) -> Seq<u8> {
        self.bytes@
    }
}

impl Context {
    /// A context is exactly [`CONTEXT_SIZE`] bytes.
    pub open spec fn wf(&self) -> bool {
        self@.len() == CONTEXT_SIZE
    }

    /// Concatenates the host challenge and the device challenge, in that
    /// order.
    pub fn from_challenges(host_challenge: &Challenge, device_challenge: &Challenge) -> (r:
        Context)
        requires
            host_challenge.wf(),
            device_challenge.wf(),
        ensures
            r@ == host_challenge@ + device_challenge@,
            r.wf(),
    {
        let mut bytes: Vec<u8> = Vec::new();
        push_all(&mut bytes, host_challenge.as_slice());
        push_all(&mut bytes, device_challenge.as_slice());
        proof {
            assert(bytes@ =~= host_challenge@ + device_challenge@);
        }
        Context { bytes }
    }

    /// The raw context bytes.
    pub fn as_slice(&self) -> (r: &[u8])
        ensures
            r@ == self@,
    {
        self.bytes.as_slice()
    }
}

} // verus!

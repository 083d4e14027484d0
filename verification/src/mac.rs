//! Chained message authentication.
//!
//! Every authenticated message of a session is MAC'd over the session id,
//! the instruction byte and the payload, with the previous message's full
//! (untruncated) CMAC prepended as chaining input. The transmitted tag is
//! the first [`MAC_SIZE`] bytes; the full CMAC becomes the next chaining
//! value, which binds message order cryptographically.

use vstd::prelude::*;

use crate::bytes::{copy_range, push_all};
use crate::crypto::{cmac_of, compute_cmac, constant_time_eq};
use crate::error::SecureChannelError;

verus! {

/// Length in bytes of the transmitted (truncated) MAC tag.
pub const MAC_SIZE: usize = 8;

/// Length in bytes of the full CMAC kept as chaining value.
pub const CHAIN_SIZE: usize = 16;

/// A truncated MAC tag as carried by a message.
#[derive(Debug)]
pub struct Mac {
    pub tag: Vec<u8>,
}

impl View for Mac {
    type V = Seq<u8>;

    open spec fn view(&self) -> Seq<u8> {
        self.tag@
    }
}

/// The buffer a chained MAC authenticates: the previous full MAC, the
/// session id, the instruction byte, then the payload.
pub open spec fn mac_input(
    chain: Seq<u8>,
    session_id: u8,
    instruction: u8,
    payload: Seq<u8>,
) -> Seq<u8> {
    chain + seq![session_id] + seq![instruction] + payload
}

/// The full CMAC of one message under `key`, chained through `chain`.
pub open spec fn full_mac(
    key: Seq<u8>,
    chain: Seq<u8>,
    session_id: u8,
    instruction: u8,
    payload: Seq<u8>,
) -> Seq<u8> {
    cmac_of(key, mac_input(chain, session_id, instruction, payload))
}

/// The transmitted tag of one message: the full CMAC truncated to
/// [`MAC_SIZE`] bytes.
pub open spec fn mac_tag(
    key: Seq<u8>,
    chain: Seq<u8>,
    session_id: u8,
    instruction: u8,
    payload: Seq<u8>,
) -> Seq<u8> {
    full_mac(key, chain, session_id, instruction, payload).take(MAC_SIZE as int)
}

impl Mac {
    /// A tag is exactly [`MAC_SIZE`] bytes.
    pub open spec fn wf(&self) -> bool {
        self@.len() == MAC_SIZE
    }

    /// Builds a tag from given bytes, rejecting any length other than
    /// [`MAC_SIZE`].
    pub fn new(bytes: Vec<u8>) -> (r: Result<Mac, SecureChannelError>)
        ensures
            bytes@.len() == MAC_SIZE ==> {
                &&& r matches Ok(m)
                &&& m@ == bytes@
                &&& m.wf()
            },
            bytes@.len() != MAC_SIZE ==> r == Err::<Mac, SecureChannelError>(
                SecureChannelError::FramingError,
            ),
    {
        if bytes.len() != MAC_SIZE {
            return Err(SecureChannelError::FramingError);
        }
        Ok(Mac { tag: bytes })
    }

    /// Compares two tags in constant time.
    pub fn matches_ct(&self, other: &Mac) -> (r: bool)
        ensures
            r == (self@ == other@),
    {
        constant_time_eq(self.tag.as_slice(), other.tag.as_slice())
    }

    /// The raw tag bytes.
    pub fn as_slice(&self) -> (r: &[u8])
        ensures
            r@ == self@,
    {
        self.tag.as_slice()
    }
}

/// Computes the chained MAC of one message: the full CMAC (the next
/// chaining value) and the truncated transmitted tag.
pub fn compute_chained_mac(
    key: &[u8],
    chain: &[u8],
    session_id: u8,
    instruction: u8,
    payload: &[u8],
) -> (r: (Vec<u8>, Mac))
    requires
        key@.len() == 16,
        chain@.len() == CHAIN_SIZE,
    ensures
        r.0@ == full_mac(key@, chain@, session_id, instruction, payload@),
        r.0@.len() == CHAIN_SIZE,
        r.1@ == mac_tag(key@, chain@, session_id, instruction, payload@),
        r.1.wf(),
{
    let mut input: Vec<u8> = Vec::new();
    push_all(&mut input, chain);
    input.push(session_id);
    input.push(instruction);
    push_all(&mut input, payload);
    proof {
        assert(input@ =~= mac_input(chain@, session_id, instruction, payload@));
    }
    let full = compute_cmac(key, input.as_slice());
    let tag = copy_range(full.as_slice(), 0, MAC_SIZE);
    proof {
        assert(tag@ =~= mac_tag(key@, chain@, session_id, instruction, payload@));
    }
    (full, Mac { tag })
}

} // verus!

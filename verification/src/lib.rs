//! Host side of a mutually authenticated, encrypted command/response channel
//! to a hardware security module.
//!
//! The channel follows the Secure Channel Protocol "03" pattern over a
//! vendor-specific APDU framing: a session is bootstrapped from long-term
//! pre-shared [`static_keys::StaticKeys`] by a challenge/response handshake,
//! fresh per-session traffic keys are derived with an AES-128-CMAC based
//! key derivation function, and every subsequent command/response pair is
//! encrypted with AES-128-CBC and authenticated with a chained CMAC, so the
//! transport below carries only opaque bytes and is trusted for no security
//! property.

use vstd::prelude::*;

pub mod bytes;
pub mod challenge;
pub mod channel;
pub mod command;
pub mod context;
pub mod crypto;
pub mod cryptogram;
pub mod error;
pub mod http;
pub mod kdf;
pub mod mac;
pub mod padding;
pub mod response;
pub mod serial;
pub mod static_keys;

pub use challenge::{Challenge, CHALLENGE_SIZE};
pub use channel::{Channel, ChannelState, SessionId, MAX_MSG_SIZE};
pub use command::{CommandMessage, CommandType};
pub use context::{Context, CONTEXT_SIZE};
pub use cryptogram::{Cryptogram, CRYPTOGRAM_SIZE};
pub use error::SecureChannelError;
pub use http::{HttpResponseError, ResponseReader, MAX_RESPONSE_SIZE};
pub use mac::{Mac, MAC_SIZE};
pub use response::ResponseMessage;
pub use static_keys::StaticKeys;

verus! {

/// AES key size in bytes. The channel supports the 128-bit profile only.
pub const KEY_SIZE: usize = 16;

} // verus!

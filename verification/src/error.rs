use vstd::prelude::*;

verus! {

/// Classifies every failure of the secure channel.
///
/// Cryptographic verification failures are never downgraded or retried:
/// `AuthenticationFailed` terminates the session it occurred on.
#[derive(Clone, Copy, Debug, PartialEq, Eq, Structural)]
pub enum SecureChannelError {
    /// A key or requested derivation length does not match the 128-bit profile.
    KeyLengthInvalid,
    /// A cryptogram or MAC comparison failed; always fatal to the session.
    AuthenticationFailed,
    /// A message is malformed or exceeds the maximum message size.
    FramingError,
    /// The message counter reached its limit; the session must end rather
    /// than reuse an initialization vector.
    CounterExhausted,
    /// The underlying transport failed or timed out.
    TransportError,
    /// The operation does not fit the session's current state.
    ProtocolStateError,
}

} // verus!

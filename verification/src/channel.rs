//! The live secure-channel state machine.
//!
//! A [`Channel`] owns the session keys derived at bootstrap, the strictly
//! increasing message counter and the running MAC chaining value. It is
//! created in a pending state once both challenges are known, becomes
//! established when the session is authenticated, and is terminated — with
//! no recovery — by any authentication failure or by counter exhaustion.
//! Both directions of an exchange are implemented, so one simulated peer
//! can answer the other in tests: [`Channel::wrap`]/[`Channel::unwrap`] are
//! the host side, [`Channel::unwrap_command`]/[`Channel::wrap_response`]
//! the device side.

use vstd::prelude::*;

use crate::bytes::{be16, be16_value, be32, copy_range, push_all, push_be16, zero_vec, zeros};
use crate::challenge::{Challenge, CHALLENGE_SIZE};
use crate::command::{
    command_wf, parse_command_spec, serialize_command_spec, CommandMessage, CommandMessageView,
    CommandType,
};
use crate::context::Context;
use crate::crypto::{cbc_dec_of, cbc_decrypt, cbc_enc_of, cbc_encrypt, constant_time_eq};
use crate::cryptogram::{Cryptogram, CRYPTOGRAM_SIZE};
use crate::error::SecureChannelError;
use crate::kdf::{
    derive_spec, LABEL_DEVICE_CRYPTOGRAM, LABEL_HOST_CRYPTOGRAM, LABEL_SESSION_ENC,
    LABEL_SESSION_MAC, LABEL_SESSION_RMAC,
};
use crate::mac::{compute_chained_mac, full_mac, mac_tag, CHAIN_SIZE, MAC_SIZE};
use crate::padding::{pad, pad_spec, padded_len, unpad, unpad_spec};
use crate::response::{
    parse_response_spec, response_wf, serialize_response_spec, ResponseMessage,
    ResponseMessageView, AUTHENTICATE_SESSION_RESPONSE_CODE, CREATE_SESSION_RESPONSE_CODE,
    SESSION_MESSAGE_RESPONSE_CODE,
};
use crate::static_keys::StaticKeys;
use crate::KEY_SIZE;

verus! {

/// Hard upper bound, in bytes, of one framed message on the wire.
pub const MAX_MSG_SIZE: usize = 2048;

/// The session slot a device assigned at bootstrap, carried by every
/// subsequent message of that session.
#[derive(Clone, Copy, Debug, PartialEq, Eq, Structural)]
pub struct SessionId(pub u8);

/// Lifecycle of a channel.
#[derive(Clone, Copy, Debug, PartialEq, Eq, Structural)]
pub enum ChannelState {
    /// Keys are derived; the session is not yet authenticated.
    PendingAuthentication,
    /// The session is authenticated; commands may flow.
    Established,
    /// The session failed or ended; every operation is refused.
    Terminated,
}

/// The mathematical value of a [`Channel`].
#[verifier::ext_equal]
pub struct ChannelView {
    pub id: u8,
    pub enc_key: Seq<u8>,
    pub mac_key: Seq<u8>,
    pub rmac_key: Seq<u8>,
    pub context: Seq<u8>,
    pub counter: u32,
    pub mac_chain: Seq<u8>,
    pub state: ChannelState,
}

/// Keys, context and chaining value have their fixed lengths, and an
/// established channel has consumed at least the authentication exchange of
/// the counter.
pub open spec fn chan_wf(v: ChannelView) -> bool {
    &&& v.enc_key.len() == KEY_SIZE
    &&& v.mac_key.len() == KEY_SIZE
    &&& v.rmac_key.len() == KEY_SIZE
    &&& v.context.len() == 16
    &&& v.mac_chain.len() == CHAIN_SIZE
    &&& (v.state is Established ==> v.counter >= 1)
}

/// The session encryption key of a bootstrap: derived from the static MAC
/// key and the context.
pub open spec fn session_enc_key_spec(static_mac_key: Seq<u8>, context: Seq<u8>) -> Seq<u8> {
    derive_spec(static_mac_key, LABEL_SESSION_ENC, context, KEY_SIZE as nat)
}

/// The session command-MAC key of a bootstrap.
pub open spec fn session_mac_key_spec(static_mac_key: Seq<u8>, context: Seq<u8>) -> Seq<u8> {
    derive_spec(static_mac_key, LABEL_SESSION_MAC, context, KEY_SIZE as nat)
}

/// The session response-MAC key of a bootstrap.
pub open spec fn session_rmac_key_spec(static_mac_key: Seq<u8>, context: Seq<u8>) -> Seq<u8> {
    derive_spec(static_mac_key, LABEL_SESSION_RMAC, context, KEY_SIZE as nat)
}

/// The device cryptogram: derived from the session MAC key and the context.
pub open spec fn device_cryptogram_spec(session_mac_key: Seq<u8>, context: Seq<u8>) -> Seq<u8> {
    derive_spec(session_mac_key, LABEL_DEVICE_CRYPTOGRAM, context, CRYPTOGRAM_SIZE as nat)
}

/// The host cryptogram: derived from the session MAC key and the context.
pub open spec fn host_cryptogram_spec(session_mac_key: Seq<u8>, context: Seq<u8>) -> Seq<u8> {
    derive_spec(session_mac_key, LABEL_HOST_CRYPTOGRAM, context, CRYPTOGRAM_SIZE as nat)
}

/// Whether a channel holds exactly the keys that one bootstrap — static MAC
/// key plus the two challenges — derives.
pub open spec fn bootstrapped_from(
    v: ChannelView,
    static_mac_key: Seq<u8>,
    host_challenge: Seq<u8>,
    device_challenge: Seq<u8>,
) -> bool {
    &&& v.context == host_challenge + device_challenge
    &&& v.enc_key == session_enc_key_spec(static_mac_key, v.context)
    &&& v.mac_key == session_mac_key_spec(static_mac_key, v.context)
    &&& v.rmac_key == session_rmac_key_spec(static_mac_key, v.context)
}

/// The cipher IV of one exchange: the counter as a 16-byte big-endian
/// value, left-padded with zero bytes. The counter is never reused, so no
/// IV is.
pub open spec fn iv_of(counter: u32) -> Seq<u8> {
    zeros(12) + be32(counter as nat)
}

/// Encodes [`iv_of`].
fn iv_bytes(counter: u32) -> (r: Vec<u8>)
    ensures
        r@ == iv_of(counter),
        r@.len() == 16,
{
    let mut v = zero_vec(12);
    v.push((counter / 0x1000000) as u8);
    v.push(((counter / 0x10000) % 256) as u8);
    v.push(((counter / 0x100) % 256) as u8);
    v.push((counter % 256) as u8);
    proof {
        assert(v@ =~= iv_of(counter));
    }
    v
}

/// Live secure-channel state: session keys, message counter and MAC chain.
pub struct Channel {
    id: SessionId,
    enc_key: Vec<u8>,
    mac_key: Vec<u8>,
    rmac_key: Vec<u8>,
    context: Vec<u8>,
    counter: u32,
    mac_chain: Vec<u8>,
    state: ChannelState,
}

impl View for Channel {
    type V = ChannelView;

    closed spec fn view(&self) -> ChannelView {
        ChannelView {
            id: self.id.0,
            enc_key: self.enc_key@,
            mac_key: self.mac_key@,
            rmac_key: self.rmac_key@,
            context: self.context@,
            counter: self.counter,
            mac_chain: self.mac_chain@,
            state: self.state,
        }
    }
}

impl Channel {
    /// See [`chan_wf`].
    pub open spec fn wf(&self) -> bool {
        chan_wf(self@)
    }

    /// Derives a channel's session keys from the static keys and the two
    /// challenges of one bootstrap. Only the static MAC key feeds the
    /// derivation; the channel starts pending, with a zero chaining value.
    pub fn new(
        id: SessionId,
        keys: &StaticKeys,
        host_challenge: &Challenge,
        device_challenge: &Challenge,
    ) -> (c: Channel)
        requires
            keys.wf(),
            host_challenge.wf(),
            device_challenge.wf(),
        ensures
            c.wf(),
            c@.id == id.0,
            c@.context == host_challenge@ + device_challenge@,
            bootstrapped_from(c@, keys@.mac_key, host_challenge@, device_challenge@),
            c@.counter == 0,
            c@.mac_chain == zeros(CHAIN_SIZE as nat),
            c@.state is PendingAuthentication,
    {
        let context = Context::from_challenges(host_challenge, device_challenge);
        let enc_key = match crate::kdf::derive(
            keys.mac_key().as_slice(),
            LABEL_SESSION_ENC,
            context.as_slice(),
            KEY_SIZE,
        ) {
            Ok(v) => v,
            Err(_) => {
                proof {
                    assert(false);
                }
                Vec::new()
            },
        };
        let mac_key = match crate::kdf::derive(
            keys.mac_key().as_slice(),
            LABEL_SESSION_MAC,
            context.as_slice(),
            KEY_SIZE,
        ) {
            Ok(v) => v,
            Err(_) => {
                proof {
                    assert(false);
                }
                Vec::new()
            },
        };
        let rmac_key = match crate::kdf::derive(
            keys.mac_key().as_slice(),
            LABEL_SESSION_RMAC,
            context.as_slice(),
            KEY_SIZE,
        ) {
            Ok(v) => v,
            Err(_) => {
                proof {
                    assert(false);
                }
                Vec::new()
            },
        };
        let mut context_bytes: Vec<u8> = Vec::new();
        crate::bytes::push_all(&mut context_bytes, context.as_slice());
        proof {
            assert(context_bytes@ =~= host_challenge@ + device_challenge@);
        }
        Channel {
            id,
            enc_key,
            mac_key,
            rmac_key,
            context: context_bytes,
            counter: 0,
            mac_chain: zero_vec(CHAIN_SIZE),
            state: ChannelState::PendingAuthentication,
        }
    }

    /// The session slot this channel speaks for.
    pub fn session_id(&self) -> (r: SessionId)
        ensures
            r.0 == self@.id,
    {
        self.id
    }

    /// The current message counter.
    pub fn message_counter(&self) -> (r: u32)
        ensures
            r == self@.counter,
    {
        self.counter
    }

    /// The current lifecycle state.
    pub fn state(&self) -> (r: ChannelState)
        ensures
            r == self@.state,
    {
        self.state
    }

    /// The device cryptogram this channel expects, derived from its session
    /// MAC key and context.
    pub fn device_cryptogram(&self) -> (c: Cryptogram)
        requires
            self.wf(),
        ensures
            c@ == device_cryptogram_spec(self@.mac_key, self@.context),
            c.wf(),
    {
        let out = match crate::kdf::derive(
            self.mac_key.as_slice(),
            LABEL_DEVICE_CRYPTOGRAM,
            self.context.as_slice(),
            CRYPTOGRAM_SIZE,
        ) {
            Ok(v) => v,
            Err(_) => {
                proof {
                    assert(false);
                }
                Vec::new()
            },
        };
        Cryptogram::from_bytes(out)
    }

    /// The host cryptogram this channel will present, derived from its
    /// session MAC key and context.
    pub fn host_cryptogram(&self) -> (c: Cryptogram)
        requires
            self.wf(),
        ensures
            c@ == host_cryptogram_spec(self@.mac_key, self@.context),
            c.wf(),
    {
        let out = match crate::kdf::derive(
            self.mac_key.as_slice(),
            LABEL_HOST_CRYPTOGRAM,
            self.context.as_slice(),
            CRYPTOGRAM_SIZE,
        ) {
            Ok(v) => v,
            Err(_) => {
                proof {
                    assert(false);
                }
                Vec::new()
            },
        };
        Cryptogram::from_bytes(out)
    }

    /// Checks the cryptogram the device sent against the expectation
    /// derived here. A mismatch is an authentication failure that
    /// terminates the bootstrap: the session must not be used.
    pub fn verify_device_cryptogram(&mut self, received: &Cryptogram) -> (r: Result<
        (),
        SecureChannelError,
    >)
        requires
            old(self).wf(),
        ensures
            final(self).wf(),
            !(old(self)@.state is PendingAuthentication) ==> r == Err::<(), SecureChannelError>(
                SecureChannelError::ProtocolStateError,
            ) && final(self)@ == old(self)@,
            old(self)@.state is PendingAuthentication ==> if received@ == device_cryptogram_spec(
                old(self)@.mac_key,
                old(self)@.context,
            ) {
                r == Ok::<(), SecureChannelError>(()) && final(self)@ == old(self)@
            } else {
                r == Err::<(), SecureChannelError>(SecureChannelError::AuthenticationFailed)
                    && final(self)@ == ChannelView { state: ChannelState::Terminated, ..old(self)@ }
            },
    {
        match self.state {
            ChannelState::PendingAuthentication => (),
            _ => { return Err(SecureChannelError::ProtocolStateError) },
        }
        let expected = self.device_cryptogram();
        if expected.matches_ct(received) {
            Ok(())
        } else {
            self.state = ChannelState::Terminated;
            proof {
                assert(self@ =~= ChannelView { state: ChannelState::Terminated, ..old(self)@ });
            }
            Err(SecureChannelError::AuthenticationFailed)
        }
    }

    /// Builds the authenticate-session command: the host cryptogram, MAC'd
    /// under the session command-MAC key with an all-zero initial chaining
    /// value. On success the channel is established, its counter starts at
    /// one and its chaining value is the full MAC just computed.
    pub fn authenticate_session(&mut self) -> (r: Result<CommandMessage, SecureChannelError>)
        requires
            old(self).wf(),
        ensures
            final(self).wf(),
            !(old(self)@.state is PendingAuthentication) ==> (r matches Err(e) && e
                == SecureChannelError::ProtocolStateError && final(self)@ == old(self)@),
            old(self)@.state is PendingAuthentication ==> {
                let hc = host_cryptogram_spec(old(self)@.mac_key, old(self)@.context);
                let full = full_mac(
                    old(self)@.mac_key,
                    zeros(CHAIN_SIZE as nat),
                    old(self)@.id,
                    CommandType::AuthenticateSession.code_spec(),
                    hc,
                );
                &&& r matches Ok(msg)
                &&& msg@ == CommandMessageView {
                    command_type: CommandType::AuthenticateSession,
                    session_id: Some(old(self)@.id),
                    data: hc,
                    mac: Some(full.take(MAC_SIZE as int)),
                }
                &&& msg.wf()
                &&& final(self)@ == ChannelView {
                    counter: 1u32,
                    mac_chain: full,
                    state: ChannelState::Established,
                    ..old(self)@
                }
            },
    {
        match self.state {
            ChannelState::PendingAuthentication => (),
            _ => { return Err(SecureChannelError::ProtocolStateError) },
        }
        let hc = self.host_cryptogram();
        let zero_chain = zero_vec(CHAIN_SIZE);
        let mut data: Vec<u8> = Vec::new();
        crate::bytes::push_all(&mut data, hc.as_slice());
        proof {
            assert(data@ =~= host_cryptogram_spec(self@.mac_key, self@.context));
        }
        let (full, tag) = compute_chained_mac(
            self.mac_key.as_slice(),
            zero_chain.as_slice(),
            self.id.0,
            CommandType::AuthenticateSession.code(),
            data.as_slice(),
        );
        let msg = CommandMessage {
            command_type: CommandType::AuthenticateSession,
            session_id: Some(self.id),
            data,
            mac: Some(tag),
        };
        self.mac_chain = full;
        self.counter = 1;
        self.state = ChannelState::Established;
        proof {
            assert(msg@ =~= CommandMessageView {
                command_type: CommandType::AuthenticateSession,
                session_id: Some(old(self)@.id),
                data: host_cryptogram_spec(old(self)@.mac_key, old(self)@.context),
                mac: Some(
                    full_mac(
                        old(self)@.mac_key,
                        zeros(CHAIN_SIZE as nat),
                        old(self)@.id,
                        CommandType::AuthenticateSession.code_spec(),
                        host_cryptogram_spec(old(self)@.mac_key, old(self)@.context),
                    ).take(MAC_SIZE as int),
                ),
            });
            assert(self@ =~= ChannelView {
                counter: 1u32,
                mac_chain: full_mac(
                    old(self)@.mac_key,
                    zeros(CHAIN_SIZE as nat),
                    old(self)@.id,
                    CommandType::AuthenticateSession.code_spec(),
                    host_cryptogram_spec(old(self)@.mac_key, old(self)@.context),
                ),
                state: ChannelState::Established,
                ..old(self)@
            });
        }
        Ok(msg)
    }

    /// Device side of [`Channel::authenticate_session`]: checks the MAC
    /// (zero chaining value, session command-MAC key) and the host
    /// cryptogram carried by the command. Any mismatch is an authentication
    /// failure that terminates the session; on success the device side is
    /// established with the same counter and chaining value as the host.
    pub fn verify_authenticate_session(&mut self, cmd: &CommandMessage) -> (r: Result<
        (),
        SecureChannelError,
    >)
        requires
            old(self).wf(),
            cmd.wf(),
        ensures
            final(self).wf(),
            !(old(self)@.state is PendingAuthentication) ==> r == Err::<(), SecureChannelError>(
                SecureChannelError::ProtocolStateError,
            ) && final(self)@ == old(self)@,
            old(self)@.state is PendingAuthentication ==> {
                let v = old(self)@;
                let expected_tag = mac_tag(
                    v.mac_key,
                    zeros(CHAIN_SIZE as nat),
                    v.id,
                    CommandType::AuthenticateSession.code_spec(),
                    cmd@.data,
                );
                let full = full_mac(
                    v.mac_key,
                    zeros(CHAIN_SIZE as nat),
                    v.id,
                    CommandType::AuthenticateSession.code_spec(),
                    cmd@.data,
                );
                if !(cmd@.command_type is AuthenticateSession) || cmd@.session_id != Some(v.id) {
                    &&& r == Err::<(), SecureChannelError>(SecureChannelError::FramingError)
                    &&& final(self)@ == v
                } else if cmd@.mac != Some(expected_tag) {
                    r == Err::<(), SecureChannelError>(SecureChannelError::AuthenticationFailed)
                        && final(self)@ == ChannelView { state: ChannelState::Terminated, ..v }
                } else if cmd@.data != host_cryptogram_spec(v.mac_key, v.context) {
                    r == Err::<(), SecureChannelError>(SecureChannelError::AuthenticationFailed)
                        && final(self)@ == ChannelView { state: ChannelState::Terminated, ..v }
                } else {
                    r == Ok::<(), SecureChannelError>(()) && final(self)@ == ChannelView {
                        counter: 1u32,
                        mac_chain: full,
                        state: ChannelState::Established,
                        ..v
                    }
                }
            },
    {
        match self.state {
            ChannelState::PendingAuthentication => (),
            _ => { return Err(SecureChannelError::ProtocolStateError) },
        }
        let type_ok = match cmd.command_type {
            CommandType::AuthenticateSession => true,
            _ => false,
        };
        let sid_ok = match &cmd.session_id {
            Some(sid) => sid.0 == self.id.0,
            None => false,
        };
        if !type_ok || !sid_ok {
            return Err(SecureChannelError::FramingError);
        }
        let zero_chain = zero_vec(CHAIN_SIZE);
        let (full, expected_tag) = compute_chained_mac(
            self.mac_key.as_slice(),
            zero_chain.as_slice(),
            self.id.0,
            CommandType::AuthenticateSession.code(),
            cmd.data.as_slice(),
        );
        let tag_ok = match &cmd.mac {
            Some(m) => expected_tag.matches_ct(m),
            None => false,
        };
        if !tag_ok {
            self.state = ChannelState::Terminated;
            proof {
                assert(self@ =~= ChannelView { state: ChannelState::Terminated, ..old(self)@ });
            }
            return Err(SecureChannelError::AuthenticationFailed);
        }
        let hc = self.host_cryptogram();
        if !constant_time_eq(cmd.data.as_slice(), hc.as_slice()) {
            self.state = ChannelState::Terminated;
            proof {
                assert(self@ =~= ChannelView { state: ChannelState::Terminated, ..old(self)@ });
            }
            return Err(SecureChannelError::AuthenticationFailed);
        }
        self.mac_chain = full;
        self.counter = 1;
        self.state = ChannelState::Established;
        proof {
            assert(self@ =~= ChannelView {
                counter: 1u32,
                mac_chain: full_mac(
                    old(self)@.mac_key,
                    zeros(CHAIN_SIZE as nat),
                    old(self)@.id,
                    CommandType::AuthenticateSession.code_spec(),
                    cmd@.data,
                ),
                state: ChannelState::Established,
                ..old(self)@
            });
        }
        Ok(())
    }
}

/// The full chained MAC that closes the handshake: the response-MAC key
/// over an empty payload, chained through the MAC of the authenticate
/// command.
pub open spec fn auth_response_full_mac(v: ChannelView) -> Seq<u8> {
    full_mac(
        v.rmac_key,
        v.mac_chain,
        v.id,
        AUTHENTICATE_SESSION_RESPONSE_CODE,
        Seq::<u8>::empty(),
    )
}

/// The envelope of the authenticate-session response.
pub open spec fn auth_response_message(v: ChannelView) -> ResponseMessageView {
    ResponseMessageView {
        code: AUTHENTICATE_SESSION_RESPONSE_CODE,
        session_id: v.id,
        data: Seq::<u8>::empty(),
        mac: Some(auth_response_full_mac(v).take(MAC_SIZE as int)),
    }
}

/// Whether a command payload fits the framed maximum: one byte each of
/// instruction and session id, two of length, the padded ciphertext and
/// the MAC tag together stay within [`MAX_MSG_SIZE`].
pub open spec fn wrap_fits(m_len: nat) -> bool {
    4 + padded_len(m_len) + MAC_SIZE <= MAX_MSG_SIZE
}

/// The ciphertext of one payload under a channel's current state: the
/// padded payload, CBC-encrypted under the session encryption key with the
/// counter-derived IV.
pub open spec fn wrap_ciphertext(v: ChannelView, m: Seq<u8>) -> Seq<u8> {
    cbc_enc_of(v.enc_key, iv_of(v.counter), pad_spec(m))
}

/// The full chained MAC of one wrapped command.
pub open spec fn wrap_full_mac(v: ChannelView, instruction: CommandType, m: Seq<u8>) -> Seq<u8> {
    full_mac(v.mac_key, v.mac_chain, v.id, instruction.code_spec(), wrap_ciphertext(v, m))
}

/// The envelope of one wrapped command.
pub open spec fn wrap_message(v: ChannelView, instruction: CommandType, m: Seq<u8>) -> CommandMessageView {
    CommandMessageView {
        command_type: instruction,
        session_id: Some(v.id),
        data: wrap_ciphertext(v, m),
        mac: Some(wrap_full_mac(v, instruction, m).take(MAC_SIZE as int)),
    }
}

/// The channel state after one wrapped command: counter advanced by one,
/// chaining value replaced by the full MAC just computed.
pub open spec fn wrap_next(v: ChannelView, instruction: CommandType, m: Seq<u8>) -> ChannelView {
    ChannelView {
        counter: (v.counter + 1) as u32,
        mac_chain: wrap_full_mac(v, instruction, m),
        ..v
    }
}

/// What [`Channel::wrap`] returns and leaves behind: the wire bytes and the
/// advanced state, or the error that names why the command was refused —
/// wrong lifecycle state, an instruction that cannot carry a session frame,
/// an exhausted counter, or an oversized payload.
pub open spec fn wrap_spec(v: ChannelView, instruction: CommandType, m: Seq<u8>) -> Result<
    (Seq<u8>, ChannelView),
    SecureChannelError,
> {
    if !(v.state is Established) {
        Err(SecureChannelError::ProtocolStateError)
    } else if !instruction.has_session_frame_spec() {
        Err(SecureChannelError::FramingError)
    } else if v.counter == u32::MAX {
        Err(SecureChannelError::CounterExhausted)
    } else if !wrap_fits(m.len()) {
        Err(SecureChannelError::FramingError)
    } else {
        Ok((serialize_command_spec(wrap_message(v, instruction, m)), wrap_next(v, instruction, m)))
    }
}

/// The full chained MAC of one wrapped response, under the response-MAC
/// key.
pub open spec fn wrap_response_full_mac(v: ChannelView, m: Seq<u8>) -> Seq<u8> {
    full_mac(
        v.rmac_key,
        v.mac_chain,
        v.id,
        SESSION_MESSAGE_RESPONSE_CODE,
        wrap_ciphertext(v, m),
    )
}

/// The envelope of one wrapped response.
pub open spec fn wrap_response_message(v: ChannelView, m: Seq<u8>) -> ResponseMessageView {
    ResponseMessageView {
        code: SESSION_MESSAGE_RESPONSE_CODE,
        session_id: v.id,
        data: wrap_ciphertext(v, m),
        mac: Some(wrap_response_full_mac(v, m).take(MAC_SIZE as int)),
    }
}

/// The channel state after one wrapped response: counter advanced by one —
/// closing the exchange — and chaining value replaced.
pub open spec fn wrap_response_next(v: ChannelView, m: Seq<u8>) -> ChannelView {
    ChannelView {
        counter: (v.counter + 1) as u32,
        mac_chain: wrap_response_full_mac(v, m),
        ..v
    }
}

/// What [`Channel::wrap_response`] returns and leaves behind.
pub open spec fn wrap_response_spec(v: ChannelView, m: Seq<u8>) -> Result<
    (Seq<u8>, ChannelView),
    SecureChannelError,
> {
    if !(v.state is Established) {
        Err(SecureChannelError::ProtocolStateError)
    } else if v.counter == u32::MAX {
        Err(SecureChannelError::CounterExhausted)
    } else if !wrap_fits(m.len()) {
        Err(SecureChannelError::FramingError)
    } else {
        Ok((serialize_response_spec(wrap_response_message(v, m)), wrap_response_next(v, m)))
    }
}

/// What [`Channel::unwrap_command`] returns and leaves behind: the
/// instruction and decrypted payload of a framed command plus the advanced
/// state, or the error it is refused with. The MAC is checked — against the
/// command-MAC key and the current chaining value — before anything is
/// decrypted; only a MAC mismatch is an authentication failure.
pub open spec fn unwrap_command_spec(v: ChannelView, b: Seq<u8>) -> Result<
    (CommandType, Seq<u8>, ChannelView),
    SecureChannelError,
> {
    if !(v.state is Established) {
        Err(SecureChannelError::ProtocolStateError)
    } else {
        match parse_command_spec(b) {
            Err(e) => Err(e),
            Ok(cm) => if !cm.command_type.has_session_frame_spec() || cm.session_id != Some(
                v.id,
            ) {
                Err(SecureChannelError::FramingError)
            } else if cm.mac != Some(
                mac_tag(v.mac_key, v.mac_chain, v.id, cm.command_type.code_spec(), cm.data),
            ) {
                Err(SecureChannelError::AuthenticationFailed)
            } else if cm.data.len() == 0 || cm.data.len() % 16 != 0 {
                Err(SecureChannelError::FramingError)
            } else {
                match unpad_spec(cbc_dec_of(v.enc_key, iv_of(v.counter), cm.data)) {
                    None => Err(SecureChannelError::FramingError),
                    Some(p) => Ok(
                        (
                            cm.command_type,
                            p,
                            ChannelView {
                                mac_chain: full_mac(
                                    v.mac_key,
                                    v.mac_chain,
                                    v.id,
                                    cm.command_type.code_spec(),
                                    cm.data,
                                ),
                                ..v
                            },
                        ),
                    ),
                }
            },
        }
    }
}

/// What [`Channel::unwrap`] returns and leaves behind: the decrypted
/// response payload plus the state with the chaining value advanced, or the
/// error it is refused with. The MAC is checked — against the response-MAC
/// key and the chaining value left by the paired command — before anything
/// is decrypted; the paired command's counter value derives the IV.
pub open spec fn unwrap_response_spec(v: ChannelView, b: Seq<u8>) -> Result<
    (Seq<u8>, ChannelView),
    SecureChannelError,
> {
    if !(v.state is Established) {
        Err(SecureChannelError::ProtocolStateError)
    } else {
        match parse_response_spec(b) {
            Err(e) => Err(e),
            Ok(rm) => if rm.code != SESSION_MESSAGE_RESPONSE_CODE || rm.session_id != v.id {
                Err(SecureChannelError::FramingError)
            } else if rm.mac != Some(mac_tag(v.rmac_key, v.mac_chain, v.id, rm.code, rm.data)) {
                Err(SecureChannelError::AuthenticationFailed)
            } else if rm.data.len() == 0 || rm.data.len() % 16 != 0 {
                Err(SecureChannelError::FramingError)
            } else {
                match unpad_spec(
                    cbc_dec_of(v.enc_key, iv_of((v.counter - 1) as u32), rm.data),
                ) {
                    None => Err(SecureChannelError::FramingError),
                    Some(p) => Ok(
                        (
                            p,
                            ChannelView {
                                mac_chain: full_mac(v.rmac_key, v.mac_chain, v.id, rm.code, rm.data),
                                ..v
                            },
                        ),
                    ),
                }
            },
        }
    }
}

impl Channel {
    /// Wraps one command: pads and encrypts the payload under the session
    /// encryption key with the counter-derived IV, MACs the envelope with
    /// the chained command MAC, advances counter and chaining value, and
    /// returns the bytes to transmit. An oversized payload is rejected
    /// before any state changes or I/O; counter exhaustion terminates the
    /// session rather than reuse an IV.
    pub fn wrap(&mut self, instruction: CommandType, plaintext: &[u8]) -> (r: Result<
        Vec<u8>,
        SecureChannelError,
    >)
        requires
            old(self).wf(),
        ensures
            final(self).wf(),
            match wrap_spec(old(self)@, instruction, plaintext@) {
                Ok(pair) => {
                    &&& r matches Ok(out) && out@ == pair.0
                    &&& final(self)@ == pair.1
                    &&& cbc_dec_of(
                        old(self)@.enc_key,
                        iv_of(old(self)@.counter),
                        wrap_ciphertext(old(self)@, plaintext@),
                    ) == pad_spec(plaintext@)
                    &&& wrap_ciphertext(old(self)@, plaintext@).len() == padded_len(
                        plaintext@.len(),
                    )
                    &&& wrap_full_mac(old(self)@, instruction, plaintext@).len() == CHAIN_SIZE
                },
                Err(e) => {
                    &&& r matches Err(e2) && e2 == e
                    &&& final(self)@ == if e is CounterExhausted {
                        ChannelView { state: ChannelState::Terminated, ..old(self)@ }
                    } else {
                        old(self)@
                    }
                },
            },
    {
        let ghost v0 = self@;
        match self.state {
            ChannelState::Established => (),
            _ => { return Err(SecureChannelError::ProtocolStateError) },
        }
        if !instruction.has_session_frame() {
            return Err(SecureChannelError::FramingError);
        }
        if self.counter == u32::MAX {
            self.state = ChannelState::Terminated;
            proof {
                assert(self@ =~= ChannelView { state: ChannelState::Terminated, ..v0 });
            }
            return Err(SecureChannelError::CounterExhausted);
        }
        if plaintext.len() > MAX_MSG_SIZE {
            proof {
                crate::padding::lemma_padded_len(plaintext@.len());
            }
            return Err(SecureChannelError::FramingError);
        }
        if 4 + ((plaintext.len() + 16) / 16) * 16 + MAC_SIZE > MAX_MSG_SIZE {
            return Err(SecureChannelError::FramingError);
        }
        proof {
            crate::padding::lemma_padded_len(plaintext@.len());
            assert(wrap_fits(plaintext@.len()));
        }
        let iv = iv_bytes(self.counter);
        let padded = pad(plaintext);
        let ct = cbc_encrypt(self.enc_key.as_slice(), iv.as_slice(), padded.as_slice());
        let (full, tag) = compute_chained_mac(
            self.mac_key.as_slice(),
            self.mac_chain.as_slice(),
            self.id.0,
            instruction.code(),
            ct.as_slice(),
        );
        let msg = CommandMessage {
            command_type: instruction,
            session_id: Some(self.id),
            data: ct,
            mac: Some(tag),
        };
        proof {
            assert(msg@ =~= wrap_message(v0, instruction, plaintext@));
            assert(command_wf(msg@));
        }
        let out = msg.serialize();
        self.mac_chain = full;
        self.counter = self.counter + 1;
        proof {
            assert(self@ =~= wrap_next(v0, instruction, plaintext@));
        }
        Ok(out)
    }

    /// Unwraps one response: parses the envelope, verifies the chained
    /// response MAC in constant time before trusting anything, then
    /// decrypts with the paired command's counter value and removes the
    /// padding. A MAC mismatch is fatal: the channel is terminated and
    /// every later operation on it fails.
    pub fn unwrap(&mut self, received: &[u8]) -> (r: Result<Vec<u8>, SecureChannelError>)
        requires
            old(self).wf(),
        ensures
            final(self).wf(),
            match unwrap_response_spec(old(self)@, received@) {
                Ok(pair) => r matches Ok(out) && out@ == pair.0 && final(self)@ == pair.1,
                Err(e) => {
                    &&& r matches Err(e2) && e2 == e
                    &&& final(self)@ == if e is AuthenticationFailed {
                        ChannelView { state: ChannelState::Terminated, ..old(self)@ }
                    } else {
                        old(self)@
                    }
                },
            },
    {
        let ghost v0 = self@;
        match self.state {
            ChannelState::Established => (),
            _ => { return Err(SecureChannelError::ProtocolStateError) },
        }
        let rm = match ResponseMessage::parse(received) {
            Ok(m) => m,
            Err(e) => { return Err(e) },
        };
        if rm.code != SESSION_MESSAGE_RESPONSE_CODE || rm.session_id.0 != self.id.0 {
            return Err(SecureChannelError::FramingError);
        }
        let (full, expected_tag) = compute_chained_mac(
            self.rmac_key.as_slice(),
            self.mac_chain.as_slice(),
            self.id.0,
            rm.code,
            rm.data.as_slice(),
        );
        let tag_ok = match &rm.mac {
            Some(m) => expected_tag.matches_ct(m),
            None => false,
        };
        if !tag_ok {
            self.state = ChannelState::Terminated;
            proof {
                assert(self@ =~= ChannelView { state: ChannelState::Terminated, ..v0 });
            }
            return Err(SecureChannelError::AuthenticationFailed);
        }
        if rm.data.len() == 0 || rm.data.len() % 16 != 0 {
            return Err(SecureChannelError::FramingError);
        }
        let iv = iv_bytes(self.counter - 1);
        let padded = cbc_decrypt(self.enc_key.as_slice(), iv.as_slice(), rm.data.as_slice());
        let out = match unpad(padded.as_slice()) {
            Some(p) => p,
            None => { return Err(SecureChannelError::FramingError) },
        };
        self.mac_chain = full;
        proof {
            assert(self@ =~= unwrap_response_spec(v0, received@)->Ok_0.1);
        }
        Ok(out)
    }

    /// Device side of [`Channel::wrap`]: parses a framed command, verifies
    /// the chained command MAC in constant time before trusting anything,
    /// then decrypts and unpads the payload. The counter is not advanced —
    /// the response of the exchange closes it.
    pub fn unwrap_command(&mut self, received: &[u8]) -> (r: Result<
        (CommandType, Vec<u8>),
        SecureChannelError,
    >)
        requires
            old(self).wf(),
        ensures
            final(self).wf(),
            match unwrap_command_spec(old(self)@, received@) {
                Ok(triple) => {
                    &&& r matches Ok(pair) && pair.0 == triple.0 && pair.1@ == triple.1
                    &&& final(self)@ == triple.2
                },
                Err(e) => {
                    &&& r matches Err(e2) && e2 == e
                    &&& final(self)@ == if e is AuthenticationFailed {
                        ChannelView { state: ChannelState::Terminated, ..old(self)@ }
                    } else {
                        old(self)@
                    }
                },
            },
    {
        let ghost v0 = self@;
        match self.state {
            ChannelState::Established => (),
            _ => { return Err(SecureChannelError::ProtocolStateError) },
        }
        let cm = match CommandMessage::parse(received) {
            Ok(m) => m,
            Err(e) => { return Err(e) },
        };
        let sid_ok = match &cm.session_id {
            Some(sid) => sid.0 == self.id.0,
            None => false,
        };
        if !cm.command_type.has_session_frame() || !sid_ok {
            return Err(SecureChannelError::FramingError);
        }
        let (full, expected_tag) = compute_chained_mac(
            self.mac_key.as_slice(),
            self.mac_chain.as_slice(),
            self.id.0,
            cm.command_type.code(),
            cm.data.as_slice(),
        );
        let tag_ok = match &cm.mac {
            Some(m) => expected_tag.matches_ct(m),
            None => false,
        };
        if !tag_ok {
            self.state = ChannelState::Terminated;
            proof {
                assert(self@ =~= ChannelView { state: ChannelState::Terminated, ..v0 });
            }
            return Err(SecureChannelError::AuthenticationFailed);
        }
        if cm.data.len() == 0 || cm.data.len() % 16 != 0 {
            return Err(SecureChannelError::FramingError);
        }
        let iv = iv_bytes(self.counter);
        let padded = cbc_decrypt(self.enc_key.as_slice(), iv.as_slice(), cm.data.as_slice());
        let out = match unpad(padded.as_slice()) {
            Some(p) => p,
            None => { return Err(SecureChannelError::FramingError) },
        };
        self.mac_chain = full;
        proof {
            assert(self@ =~= unwrap_command_spec(v0, received@)->Ok_0.2);
        }
        Ok((cm.command_type, out))
    }

    /// Device side of [`Channel::unwrap`]: wraps one response under the
    /// response-MAC key — chained through the full MAC of the command it
    /// answers — encrypting with the same counter value as that command,
    /// then advances counter and chaining value to close the exchange.
    pub fn wrap_response(&mut self, plaintext: &[u8]) -> (r: Result<Vec<u8>, SecureChannelError>)
        requires
            old(self).wf(),
        ensures
            final(self).wf(),
            match wrap_response_spec(old(self)@, plaintext@) {
                Ok(pair) => {
                    &&& r matches Ok(out) && out@ == pair.0
                    &&& final(self)@ == pair.1
                    &&& cbc_dec_of(
                        old(self)@.enc_key,
                        iv_of(old(self)@.counter),
                        wrap_ciphertext(old(self)@, plaintext@),
                    ) == pad_spec(plaintext@)
                    &&& wrap_ciphertext(old(self)@, plaintext@).len() == padded_len(
                        plaintext@.len(),
                    )
                    &&& wrap_response_full_mac(old(self)@, plaintext@).len() == CHAIN_SIZE
                },
                Err(e) => {
                    &&& r matches Err(e2) && e2 == e
                    &&& final(self)@ == if e is CounterExhausted {
                        ChannelView { state: ChannelState::Terminated, ..old(self)@ }
                    } else {
                        old(self)@
                    }
                },
            },
    {
        let ghost v0 = self@;
        match self.state {
            ChannelState::Established => (),
            _ => { return Err(SecureChannelError::ProtocolStateError) },
        }
        if self.counter == u32::MAX {
            self.state = ChannelState::Terminated;
            proof {
                assert(self@ =~= ChannelView { state: ChannelState::Terminated, ..v0 });
            }
            return Err(SecureChannelError::CounterExhausted);
        }
        if plaintext.len() > MAX_MSG_SIZE {
            proof {
                crate::padding::lemma_padded_len(plaintext@.len());
            }
            return Err(SecureChannelError::FramingError);
        }
        if 4 + ((plaintext.len() + 16) / 16) * 16 + MAC_SIZE > MAX_MSG_SIZE {
            return Err(SecureChannelError::FramingError);
        }
        proof {
            crate::padding::lemma_padded_len(plaintext@.len());
            assert(wrap_fits(plaintext@.len()));
        }
        let iv = iv_bytes(self.counter);
        let padded = pad(plaintext);
        let ct = cbc_encrypt(self.enc_key.as_slice(), iv.as_slice(), padded.as_slice());
        let (full, tag) = compute_chained_mac(
            self.rmac_key.as_slice(),
            self.mac_chain.as_slice(),
            self.id.0,
            SESSION_MESSAGE_RESPONSE_CODE,
            ct.as_slice(),
        );
        let msg = ResponseMessage {
            code: SESSION_MESSAGE_RESPONSE_CODE,
            session_id: self.id,
            data: ct,
            mac: Some(tag),
        };
        proof {
            assert(msg@ =~= wrap_response_message(v0, plaintext@));
            assert(response_wf(msg@));
        }
        let out = msg.serialize();
        self.mac_chain = full;
        self.counter = self.counter + 1;
        proof {
            assert(self@ =~= wrap_response_next(v0, plaintext@));
        }
        Ok(out)
    }
}

/// Reading back the four big-endian digits reconstructs any 32-bit value.
proof fn lemma_be32_reconstruct(v: nat)
    requires
        v < 0x100000000,
    ensures
        v == ((v / 0x1000000) % 256) * 0x1000000 + ((v / 0x10000) % 256) * 0x10000 + ((v / 0x100)
            % 256) * 0x100 + v % 256,
{
    vstd::arithmetic::div_mod::lemma_div_denominator(v as int, 0x100, 0x100);
    vstd::arithmetic::div_mod::lemma_div_denominator(v as int, 0x10000, 0x100);
    assert(v / 0x1000000 < 256);
    assert((v / 0x1000000) % 256 == v / 0x1000000);
    assert(v / 0x10000 == (v / 0x10000 / 0x100) * 0x100 + (v / 0x10000) % 0x100);
    assert(v / 0x100 == (v / 0x100 / 0x100) * 0x100 + (v / 0x100) % 0x100);
    assert(v == (v / 0x100) * 0x100 + v % 0x100);
    assert((v / 0x10000) * 0x10000 == ((v / 0x1000000) * 0x100 + (v / 0x10000) % 0x100) * 0x10000)
        by (nonlinear_arith)
        requires
            v / 0x10000 == (v / 0x1000000) * 0x100 + (v / 0x10000) % 0x100,
    ;
    assert((v / 0x100) * 0x100 == ((v / 0x10000) * 0x100 + (v / 0x100) % 0x100) * 0x100)
        by (nonlinear_arith)
        requires
            v / 0x100 == (v / 0x10000) * 0x100 + (v / 0x100) % 0x100,
    ;
    assert(((v / 0x1000000) * 0x100 + (v / 0x10000) % 0x100) * 0x10000 == (v / 0x1000000)
        * 0x1000000 + ((v / 0x10000) % 0x100) * 0x10000) by (nonlinear_arith);
    assert(((v / 0x10000) * 0x100 + (v / 0x100) % 0x100) * 0x100 == (v / 0x10000) * 0x10000 + ((v
        / 0x100) % 0x100) * 0x100) by (nonlinear_arith);
}

/// No IV reuse: distinct counter values always derive distinct cipher IVs,
/// and the counter of a channel only ever advances.
pub proof fn lemma_iv_injective(c1: u32, c2: u32)
    requires
        c1 != c2,
    ensures
        iv_of(c1) != iv_of(c2),
{
    if iv_of(c1) == iv_of(c2) {
        let n1 = c1 as nat;
        let n2 = c2 as nat;
        assert(iv_of(c1)[12] == be32(n1)[0] && iv_of(c1)[13] == be32(n1)[1] && iv_of(c1)[14]
            == be32(n1)[2] && iv_of(c1)[15] == be32(n1)[3]);
        assert(iv_of(c2)[12] == be32(n2)[0] && iv_of(c2)[13] == be32(n2)[1] && iv_of(c2)[14]
            == be32(n2)[2] && iv_of(c2)[15] == be32(n2)[3]);
        lemma_be32_reconstruct(n1);
        lemma_be32_reconstruct(n2);
        assert(n1 == n2);
        assert(false);
    }
}

/// Counter monotonicity: every wrapped command advances the message
/// counter by exactly one, and so does the response that closes an
/// exchange on the device side.
pub proof fn lemma_counter_monotonic(v: ChannelView, instruction: CommandType, m: Seq<u8>)
    ensures
        wrap_spec(v, instruction, m) is Ok ==> wrap_spec(v, instruction, m)->Ok_0.1.counter
            == v.counter + 1,
        wrap_response_spec(v, m) is Ok ==> wrap_response_spec(v, m)->Ok_0.1.counter == v.counter
            + 1,
{
}

/// Bootstrap symmetry: two channels bootstrapped from the same static MAC
/// key and the same pair of challenges hold identical session keys, so the
/// device cryptogram the host expects equals the one the device derives,
/// and likewise for the host cryptogram.
pub proof fn lemma_bootstrap_symmetry(
    host: ChannelView,
    device: ChannelView,
    static_mac_key: Seq<u8>,
    host_challenge: Seq<u8>,
    device_challenge: Seq<u8>,
)
    requires
        bootstrapped_from(host, static_mac_key, host_challenge, device_challenge),
        bootstrapped_from(device, static_mac_key, host_challenge, device_challenge),
    ensures
        host.enc_key == device.enc_key,
        host.mac_key == device.mac_key,
        host.rmac_key == device.rmac_key,
        device_cryptogram_spec(host.mac_key, host.context) == device_cryptogram_spec(
            device.mac_key,
            device.context,
        ),
        host_cryptogram_spec(host.mac_key, host.context) == host_cryptogram_spec(
            device.mac_key,
            device.context,
        ),
{
}

/// No silent recovery: once a channel is terminated — as every
/// authentication failure and counter exhaustion leaves it — each further
/// operation fails with a protocol state error, whatever its input.
pub proof fn lemma_terminated_rejects(
    v: ChannelView,
    instruction: CommandType,
    m: Seq<u8>,
    b: Seq<u8>,
)
    requires
        v.state is Terminated,
    ensures
        wrap_spec(v, instruction, m) == Err::<(Seq<u8>, ChannelView), SecureChannelError>(
            SecureChannelError::ProtocolStateError,
        ),
        wrap_response_spec(v, m) == Err::<(Seq<u8>, ChannelView), SecureChannelError>(
            SecureChannelError::ProtocolStateError,
        ),
        unwrap_command_spec(v, b) == Err::<
            (CommandType, Seq<u8>, ChannelView),
            SecureChannelError,
        >(SecureChannelError::ProtocolStateError),
        unwrap_response_spec(v, b) == Err::<(Seq<u8>, ChannelView), SecureChannelError>(
            SecureChannelError::ProtocolStateError,
        ),
{
}

/// A response whose tag is not the chained MAC expected next — as after
/// any tampering with the transmitted ciphertext or tag that changes the
/// MAC — is rejected as an authentication failure, which terminates the
/// channel.
pub proof fn lemma_tampered_response_rejected(v: ChannelView, b: Seq<u8>)
    requires
        v.state is Established,
        parse_response_spec(b) matches Ok(rm) && rm.code == SESSION_MESSAGE_RESPONSE_CODE
            && rm.session_id == v.id && rm.mac != Some(
            mac_tag(v.rmac_key, v.mac_chain, v.id, rm.code, rm.data),
        ),
    ensures
        unwrap_response_spec(v, b) == Err::<(Seq<u8>, ChannelView), SecureChannelError>(
            SecureChannelError::AuthenticationFailed,
        ),
{
}

/// Oversized payloads never leave the host: a command whose padded
/// ciphertext and envelope would exceed the maximum message size is
/// rejected as a framing error — before any encryption, state change or
/// transport I/O.
pub proof fn lemma_oversized_rejected(v: ChannelView, instruction: CommandType, m: Seq<u8>)
    requires
        v.state is Established,
        instruction.has_session_frame_spec(),
        v.counter != u32::MAX,
        !wrap_fits(m.len()),
    ensures
        wrap_spec(v, instruction, m) == Err::<(Seq<u8>, ChannelView), SecureChannelError>(
            SecureChannelError::FramingError,
        ),
{
}

/// Round trip of one command: a device-side channel that shares the host's
/// keys, counter and chaining value unwraps exactly the payload the host
/// wrapped, and both ends leave the exchange with the same chaining value.
/// The hypotheses about the ciphertext and the MAC lengths are exactly what
/// [`Channel::wrap`] ensures of the bytes it produced.
pub proof fn lemma_wrap_unwrap_round_trip(
    host: ChannelView,
    device: ChannelView,
    instruction: CommandType,
    m: Seq<u8>,
)
    requires
        chan_wf(host),
        chan_wf(device),
        device.id == host.id,
        device.enc_key == host.enc_key,
        device.mac_key == host.mac_key,
        device.counter == host.counter,
        device.mac_chain == host.mac_chain,
        device.state is Established,
        wrap_spec(host, instruction, m) is Ok,
        cbc_dec_of(host.enc_key, iv_of(host.counter), wrap_ciphertext(host, m)) == pad_spec(m),
        wrap_ciphertext(host, m).len() == padded_len(m.len()),
        wrap_full_mac(host, instruction, m).len() == CHAIN_SIZE,
    ensures
        ({
            let bytes = wrap_spec(host, instruction, m)->Ok_0.0;
            &&& unwrap_command_spec(device, bytes) matches Ok(t)
            &&& unwrap_command_spec(device, bytes)->Ok_0.0 == instruction
            &&& unwrap_command_spec(device, bytes)->Ok_0.1 == m
            &&& unwrap_command_spec(device, bytes)->Ok_0.2.mac_chain == wrap_spec(
                host,
                instruction,
                m,
            )->Ok_0.1.mac_chain
            &&& unwrap_command_spec(device, bytes)->Ok_0.2.counter == device.counter
        }),
{
    let wm = wrap_message(host, instruction, m);
    crate::padding::lemma_padded_len(m.len());
    assert(command_wf(wm));
    crate::command::lemma_command_round_trip(wm);
    crate::padding::lemma_unpad_pad(m);
}

/// Round trip of one response: a host-side channel one step ahead of the
/// device — its counter already advanced by the command of the exchange —
/// and sharing the device's keys and chaining value unwraps exactly the
/// payload the device wrapped, and both ends leave the exchange with the
/// same chaining value.
pub proof fn lemma_wrap_unwrap_response_round_trip(
    device: ChannelView,
    host: ChannelView,
    m: Seq<u8>,
)
    requires
        chan_wf(device),
        chan_wf(host),
        host.id == device.id,
        host.enc_key == device.enc_key,
        host.rmac_key == device.rmac_key,
        host.counter == device.counter + 1,
        host.mac_chain == device.mac_chain,
        host.state is Established,
        wrap_response_spec(device, m) is Ok,
        cbc_dec_of(device.enc_key, iv_of(device.counter), wrap_ciphertext(device, m)) == pad_spec(
            m,
        ),
        wrap_ciphertext(device, m).len() == padded_len(m.len()),
        wrap_response_full_mac(device, m).len() == CHAIN_SIZE,
    ensures
        ({
            let bytes = wrap_response_spec(device, m)->Ok_0.0;
            &&& unwrap_response_spec(host, bytes) matches Ok(p)
            &&& unwrap_response_spec(host, bytes)->Ok_0.0 == m
            &&& unwrap_response_spec(host, bytes)->Ok_0.1.mac_chain == wrap_response_spec(
                device,
                m,
            )->Ok_0.1.mac_chain
        }),
{
    let rm = wrap_response_message(device, m);
    crate::padding::lemma_padded_len(m.len());
    assert(response_wf(rm));
    crate::response::lemma_response_round_trip(rm);
    assert((host.counter - 1) as u32 == device.counter);
    crate::padding::lemma_unpad_pad(m);
}

/// Builds the unauthenticated session-open command: the two-byte host
/// identifier followed by the fresh host challenge, with neither session
/// id nor MAC.
pub fn create_session_command(auth_key_id: u16, host_challenge: &Challenge) -> (r: CommandMessage)
    requires
        host_challenge.wf(),
    ensures
        r@ == (CommandMessageView {
            command_type: CommandType::CreateSession,
            session_id: None,
            data: be16(auth_key_id as nat) + host_challenge@,
            mac: None,
        }),
        r.wf(),
{
    let mut data: Vec<u8> = Vec::new();
    push_be16(&mut data, auth_key_id);
    push_all(&mut data, host_challenge.as_slice());
    let r = CommandMessage {
        command_type: CommandType::CreateSession,
        session_id: None,
        data,
        mac: None,
    };
    proof {
        assert(r@.data =~= be16(auth_key_id as nat) + host_challenge@);
        assert(r@ =~= CommandMessageView {
            command_type: CommandType::CreateSession,
            session_id: None,
            data: be16(auth_key_id as nat) + host_challenge@,
            mac: None,
        });
    }
    r
}

/// Device side of the session-open exchange: reads the host identifier and
/// host challenge out of a session-open command.
pub fn parse_create_session_command(bytes: &[u8]) -> (r: Result<
    (u16, Challenge),
    SecureChannelError,
>)
    ensures
        match parse_command_spec(bytes@) {
            Ok(cm) => if cm.command_type is CreateSession && cm.data.len() == 2 + CHALLENGE_SIZE {
                &&& r matches Ok(pair)
                &&& pair.0 as nat == be16_value(cm.data[0], cm.data[1])
                &&& pair.1@ == cm.data.subrange(2, (2 + CHALLENGE_SIZE) as int)
                &&& pair.1.wf()
            } else {
                r == Err::<(u16, Challenge), SecureChannelError>(SecureChannelError::FramingError)
            },
            Err(e) => r matches Err(e2) && e2 == e,
        },
{
    let cm = match CommandMessage::parse(bytes) {
        Ok(m) => m,
        Err(e) => { return Err(e) },
    };
    let type_ok = match cm.command_type {
        CommandType::CreateSession => true,
        _ => false,
    };
    if !type_ok || cm.data.len() != 2 + CHALLENGE_SIZE {
        return Err(SecureChannelError::FramingError);
    }
    let auth_key_id: u16 = (cm.data[0] as u16) * 256 + (cm.data[1] as u16);
    let challenge = match Challenge::new(copy_range(cm.data.as_slice(), 2, 2 + CHALLENGE_SIZE)) {
        Ok(c) => c,
        Err(_) => {
            proof {
                assert(false);
            }
            return Err(SecureChannelError::FramingError);
        },
    };
    Ok((auth_key_id, challenge))
}

/// Device side of the session-open exchange: the assigned session id, the
/// device challenge and the device cryptogram, unauthenticated.
pub fn create_session_response(
    id: SessionId,
    device_challenge: &Challenge,
    device_cryptogram: &Cryptogram,
) -> (r: ResponseMessage)
    requires
        device_challenge.wf(),
        device_cryptogram.wf(),
    ensures
        r@ == (ResponseMessageView {
            code: CREATE_SESSION_RESPONSE_CODE,
            session_id: id.0,
            data: device_challenge@ + device_cryptogram@,
            mac: None,
        }),
        r.wf(),
{
    let mut data: Vec<u8> = Vec::new();
    push_all(&mut data, device_challenge.as_slice());
    push_all(&mut data, device_cryptogram.as_slice());
    let r = ResponseMessage {
        code: CREATE_SESSION_RESPONSE_CODE,
        session_id: id,
        data,
        mac: None,
    };
    proof {
        assert(r@.data =~= device_challenge@ + device_cryptogram@);
        assert(r@ =~= ResponseMessageView {
            code: CREATE_SESSION_RESPONSE_CODE,
            session_id: id.0,
            data: device_challenge@ + device_cryptogram@,
            mac: None,
        });
    }
    r
}

/// Reads the assigned session id, device challenge and device cryptogram
/// out of a session-open response.
pub fn parse_create_session_response(bytes: &[u8]) -> (r: Result<
    (SessionId, Challenge, Cryptogram),
    SecureChannelError,
>)
    ensures
        match parse_response_spec(bytes@) {
            Ok(rm) => if rm.code == CREATE_SESSION_RESPONSE_CODE && rm.data.len() == CHALLENGE_SIZE
                + CRYPTOGRAM_SIZE {
                &&& r matches Ok(t)
                &&& t.0.0 == rm.session_id
                &&& t.1@ == rm.data.subrange(0, CHALLENGE_SIZE as int)
                &&& t.2@ == rm.data.subrange(
                    CHALLENGE_SIZE as int,
                    (CHALLENGE_SIZE + CRYPTOGRAM_SIZE) as int,
                )
                &&& t.1.wf()
                &&& t.2.wf()
            } else {
                r == Err::<(SessionId, Challenge, Cryptogram), SecureChannelError>(
                    SecureChannelError::FramingError,
                )
            },
            Err(e) => r matches Err(e2) && e2 == e,
        },
{
    let rm = match ResponseMessage::parse(bytes) {
        Ok(m) => m,
        Err(e) => { return Err(e) },
    };
    if rm.code != CREATE_SESSION_RESPONSE_CODE || rm.data.len() != CHALLENGE_SIZE
        + CRYPTOGRAM_SIZE {
        return Err(SecureChannelError::FramingError);
    }
    let challenge = match Challenge::new(copy_range(rm.data.as_slice(), 0, CHALLENGE_SIZE)) {
        Ok(c) => c,
        Err(_) => {
            proof {
                assert(false);
            }
            return Err(SecureChannelError::FramingError);
        },
    };
    let cryptogram = Cryptogram::from_bytes(
        copy_range(rm.data.as_slice(), CHALLENGE_SIZE, CHALLENGE_SIZE + CRYPTOGRAM_SIZE),
    );
    Ok((rm.session_id, challenge, cryptogram))
}

impl Channel {
    /// Device side, closing the handshake: the success response to the
    /// authenticate command, with an empty payload, MAC'd under the
    /// response-MAC key and chained through the authenticate command's
    /// MAC. The chaining value advances; the counter does not — the first
    /// encrypted exchange still uses counter one.
    pub fn authenticate_response(&mut self) -> (r: Result<Vec<u8>, SecureChannelError>)
        requires
            old(self).wf(),
        ensures
            final(self).wf(),
            !(old(self)@.state is Established) ==> (r matches Err(e) && e
                == SecureChannelError::ProtocolStateError && final(self)@ == old(self)@),
            old(self)@.state is Established ==> {
                &&& r matches Ok(out)
                &&& out@ == serialize_response_spec(auth_response_message(old(self)@))
                &&& final(self)@ == ChannelView {
                    mac_chain: auth_response_full_mac(old(self)@),
                    ..old(self)@
                }
            },
    {
        let ghost v0 = self@;
        match self.state {
            ChannelState::Established => (),
            _ => { return Err(SecureChannelError::ProtocolStateError) },
        }
        let empty: Vec<u8> = Vec::new();
        let (full, tag) = compute_chained_mac(
            self.rmac_key.as_slice(),
            self.mac_chain.as_slice(),
            self.id.0,
            AUTHENTICATE_SESSION_RESPONSE_CODE,
            empty.as_slice(),
        );
        let msg = ResponseMessage {
            code: AUTHENTICATE_SESSION_RESPONSE_CODE,
            session_id: self.id,
            data: empty,
            mac: Some(tag),
        };
        proof {
            assert(msg@ =~= auth_response_message(v0));
            assert(response_wf(msg@));
        }
        let out = msg.serialize();
        self.mac_chain = full;
        proof {
            assert(self@ =~= ChannelView { mac_chain: auth_response_full_mac(v0), ..v0 });
        }
        Ok(out)
    }

    /// Host side, closing the handshake: checks that the device answered
    /// the authenticate command with its success status, the right session
    /// id, an empty payload and the expected chained MAC. A MAC mismatch
    /// terminates the channel; on success the chaining value advances in
    /// step with the device's.
    pub fn verify_authenticate_response(&mut self, received: &[u8]) -> (r: Result<
        (),
        SecureChannelError,
    >)
        requires
            old(self).wf(),
        ensures
            final(self).wf(),
            !(old(self)@.state is Established) ==> (r matches Err(e) && e
                == SecureChannelError::ProtocolStateError && final(self)@ == old(self)@),
            old(self)@.state is Established ==> {
                let v = old(self)@;
                match parse_response_spec(received@) {
                    Err(e) => r == Err::<(), SecureChannelError>(e) && final(self)@ == v,
                    Ok(rm) => if rm.code != AUTHENTICATE_SESSION_RESPONSE_CODE || rm.session_id
                        != v.id || rm.data.len() != 0 {
                        r == Err::<(), SecureChannelError>(SecureChannelError::FramingError)
                            && final(self)@ == v
                    } else if rm.mac != Some(auth_response_full_mac(v).take(MAC_SIZE as int)) {
                        r == Err::<(), SecureChannelError>(
                            SecureChannelError::AuthenticationFailed,
                        ) && final(self)@ == ChannelView { state: ChannelState::Terminated, ..v }
                    } else {
                        r == Ok::<(), SecureChannelError>(()) && final(self)@ == ChannelView {
                            mac_chain: auth_response_full_mac(v),
                            ..v
                        }
                    },
                }
            },
    {
        let ghost v0 = self@;
        match self.state {
            ChannelState::Established => (),
            _ => { return Err(SecureChannelError::ProtocolStateError) },
        }
        let rm = match ResponseMessage::parse(received) {
            Ok(m) => m,
            Err(e) => { return Err(e) },
        };
        if rm.code != AUTHENTICATE_SESSION_RESPONSE_CODE || rm.session_id.0 != self.id.0
            || rm.data.len() != 0 {
            return Err(SecureChannelError::FramingError);
        }
        let empty: Vec<u8> = Vec::new();
        let (full, expected_tag) = compute_chained_mac(
            self.rmac_key.as_slice(),
            self.mac_chain.as_slice(),
            self.id.0,
            AUTHENTICATE_SESSION_RESPONSE_CODE,
            empty.as_slice(),
        );
        let tag_ok = match &rm.mac {
            Some(m) => expected_tag.matches_ct(m),
            None => false,
        };
        if !tag_ok {
            self.state = ChannelState::Terminated;
            proof {
                assert(rm@.data =~= Seq::<u8>::empty());
                assert(self@ =~= ChannelView { state: ChannelState::Terminated, ..v0 });
            }
            return Err(SecureChannelError::AuthenticationFailed);
        }
        self.mac_chain = full;
        proof {
            assert(rm@.data =~= Seq::<u8>::empty());
            assert(self@ =~= ChannelView { mac_chain: auth_response_full_mac(v0), ..v0 });
        }
        Ok(())
    }
}

/// Round trip of the handshake's last leg: a host that shares the device's
/// keys and chaining value accepts the authenticate response the device
/// built, and both ends leave the handshake with the same chaining value.
pub proof fn lemma_authenticate_response_round_trip(device: ChannelView, host: ChannelView)
    requires
        chan_wf(device),
        chan_wf(host),
        host.id == device.id,
        host.rmac_key == device.rmac_key,
        host.mac_chain == device.mac_chain,
        host.state is Established,
        device.state is Established,
        auth_response_full_mac(device).len() == CHAIN_SIZE,
    ensures
        ({
            let bytes = serialize_response_spec(auth_response_message(device));
            &&& parse_response_spec(bytes) matches Ok(rm)
            &&& parse_response_spec(bytes)->Ok_0 == auth_response_message(device)
            &&& auth_response_full_mac(host) == auth_response_full_mac(device)
        }),
{
    let rm = auth_response_message(device);
    assert(response_wf(rm));
    crate::response::lemma_response_round_trip(rm);
}

} // verus!

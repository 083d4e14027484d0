//! Outbound command envelopes.
//!
//! Wire layout, big-endian: instruction code (1 byte), session id (1 byte,
//! omitted on the pre-session bootstrap command), payload length (2 bytes),
//! payload, MAC tag (present on everything but the first unauthenticated
//! challenge exchange).

use vstd::prelude::*;

use crate::bytes::{be16, be16_value, copy_range, push_all, push_be16};
use crate::channel::SessionId;
use crate::error::SecureChannelError;
use crate::mac::{Mac, MAC_SIZE};

verus! {

/// Instruction codes of the channel protocol.
#[derive(Clone, Copy, Debug, PartialEq, Eq, Structural)]
pub enum CommandType {
    /// Opens a session slot: carries the host identifier and host
    /// challenge, unauthenticated.
    CreateSession,
    /// Proves the host's session keys: carries the host cryptogram, MAC'd
    /// with an all-zero initial chaining value.
    AuthenticateSession,
    /// One steady-state encrypted command.
    SessionMessage,
}

impl CommandType {
    /// The instruction byte of this command type.
    pub open spec fn code_spec(self) -> u8 {
        match self {
            CommandType::CreateSession => 0x03,
            CommandType::AuthenticateSession => 0x04,
            CommandType::SessionMessage => 0x05,
        }
    }

    /// The instruction byte of this command type.
    pub fn code(self) -> (r: u8)
        ensures
            r == self.code_spec(),
    {
        match self {
            CommandType::CreateSession => 0x03,
            CommandType::AuthenticateSession => 0x04,
            CommandType::SessionMessage => 0x05,
        }
    }

    /// The command type an instruction byte decodes to.
    pub open spec fn from_code_spec(code: u8) -> Option<CommandType> {
        if code == 0x03 {
            Some(CommandType::CreateSession)
        } else if code == 0x04 {
            Some(CommandType::AuthenticateSession)
        } else if code == 0x05 {
            Some(CommandType::SessionMessage)
        } else {
            None
        }
    }

    /// Decodes an instruction byte.
    pub fn from_code(code: u8) -> (r: Option<CommandType>)
        ensures
            r == CommandType::from_code_spec(code),
    {
        if code == 0x03 {
            Some(CommandType::CreateSession)
        } else if code == 0x04 {
            Some(CommandType::AuthenticateSession)
        } else if code == 0x05 {
            Some(CommandType::SessionMessage)
        } else {
            None
        }
    }

    /// The status byte of a success response to this command.
    pub open spec fn response_code_spec(self) -> u8 {
        (self.code_spec() + 0x80) as u8
    }

    /// The status byte of a success response to this command.
    pub fn response_code(self) -> (r: u8)
        ensures
            r == self.response_code_spec(),
    {
        self.code() + 0x80
    }

    /// Whether messages of this type carry a session id and a MAC tag.
    pub open spec fn has_session_frame_spec(self) -> bool {
        !(self is CreateSession)
    }

    /// Whether messages of this type carry a session id and a MAC tag.
    pub fn has_session_frame(self) -> (r: bool)
        ensures
            r == self.has_session_frame_spec(),
    {
        match self {
            CommandType::CreateSession => false,
            _ => true,
        }
    }
}

/// The mathematical value of a [`CommandMessage`].
#[verifier::ext_equal]
pub struct CommandMessageView {
    pub command_type: CommandType,
    pub session_id: Option<u8>,
    pub data: Seq<u8>,
    pub mac: Option<Seq<u8>>,
}

/// One outbound unit: instruction, optional session id, payload and
/// optional MAC tag.
#[derive(Debug)]
pub struct CommandMessage {
    pub command_type: CommandType,
    pub session_id: Option<SessionId>,
    pub data: Vec<u8>,
    pub mac: Option<Mac>,
}

impl View for CommandMessage {
    type V = CommandMessageView;

    open spec fn view(&self) -> CommandMessageView {
        CommandMessageView {
            command_type: self.command_type,
            session_id: match self.session_id {
                Some(sid) => Some(sid.0),
                None => None,
            },
            data: self.data@,
            mac: match self.mac {
                Some(m) => Some(m@),
                None => None,
            },
        }
    }
}

/// A message is well formed when its shape matches its type: the session
/// frame (id and tag) is present exactly on post-bootstrap types, the tag
/// has its fixed length, and the payload length fits the two-byte field.
pub open spec fn command_wf(v: CommandMessageView) -> bool {
    &&& v.data.len() <= 0xffff
    &&& if v.command_type.has_session_frame_spec() {
        &&& v.session_id is Some
        &&& v.mac matches Some(t) && t.len() == MAC_SIZE
    } else {
        &&& v.session_id is None
        &&& v.mac is None
    }
}

/// The wire form of a command message.
pub open spec fn serialize_command_spec(v: CommandMessageView) -> Seq<u8> {
    seq![v.command_type.code_spec()] + (match v.session_id {
        Some(sid) => seq![sid],
        None => Seq::<u8>::empty(),
    }) + be16(v.data.len()) + v.data + (match v.mac {
        Some(t) => t,
        None => Seq::<u8>::empty(),
    })
}

/// The command message a wire buffer decodes to, or the framing error it
/// is rejected with: unknown instruction, short buffer, or a payload length
/// field that does not match the buffer.
pub open spec fn parse_command_spec(b: Seq<u8>) -> Result<
    CommandMessageView,
    SecureChannelError,
> {
    if b.len() < 1 {
        Err(SecureChannelError::FramingError)
    } else {
        match CommandType::from_code_spec(b[0]) {
            None => Err(SecureChannelError::FramingError),
            Some(t) => if !t.has_session_frame_spec() {
                if b.len() < 3 {
                    Err(SecureChannelError::FramingError)
                } else {
                    let n = be16_value(b[1], b[2]);
                    if b.len() != 3 + n {
                        Err(SecureChannelError::FramingError)
                    } else {
                        Ok(
                            CommandMessageView {
                                command_type: t,
                                session_id: None,
                                data: b.subrange(3, 3 + n as int),
                                mac: None,
                            },
                        )
                    }
                }
            } else {
                if b.len() < 4 + MAC_SIZE {
                    Err(SecureChannelError::FramingError)
                } else {
                    let n = be16_value(b[2], b[3]);
                    if b.len() != 4 + n + MAC_SIZE {
                        Err(SecureChannelError::FramingError)
                    } else {
                        Ok(
                            CommandMessageView {
                                command_type: t,
                                session_id: Some(b[1]),
                                data: b.subrange(4, 4 + n as int),
                                mac: Some(b.subrange(4 + n as int, 4 + n + MAC_SIZE)),
                            },
                        )
                    }
                }
            },
        }
    }
}

impl CommandMessage {
    /// See [`command_wf`].
    pub open spec fn wf(&self) -> bool {
        command_wf(self@)
    }

    /// Encodes the message in its wire form.
    pub fn serialize(&self) -> (r: Vec<u8>)
        requires
            self.wf(),
        ensures
            r@ == serialize_command_spec(self@),
    {
        let mut out: Vec<u8> = Vec::new();
        out.push(self.command_type.code());
        match &self.session_id {
            Some(sid) => out.push(sid.0),
            None => (),
        }
        push_be16(&mut out, self.data.len() as u16);
        push_all(&mut out, self.data.as_slice());
        match &self.mac {
            Some(m) => push_all(&mut out, m.as_slice()),
            None => (),
        }
        proof {
            assert(out@ =~= serialize_command_spec(self@));
        }
        out
    }

    /// Decodes a wire buffer.
    pub fn parse(bytes: &[u8]) -> (r: Result<CommandMessage, SecureChannelError>)
        ensures
            match parse_command_spec(bytes@) {
                Ok(v) => r matches Ok(m) && m@ == v && m.wf(),
                Err(e) => r matches Err(e2) && e2 == e,
            },
    {
        if bytes.len() < 1 {
            return Err(SecureChannelError::FramingError);
        }
        let t = match CommandType::from_code(bytes[0]) {
            Some(t) => t,
            None => { return Err(SecureChannelError::FramingError) },
        };
        if !t.has_session_frame() {
            if bytes.len() < 3 {
                return Err(SecureChannelError::FramingError);
            }
            let n: usize = (bytes[1] as usize) * 256 + (bytes[2] as usize);
            if bytes.len() - 3 != n {
                return Err(SecureChannelError::FramingError);
            }
            let data = copy_range(bytes, 3, 3 + n);
            let m = CommandMessage { command_type: t, session_id: None, data, mac: None };
            proof {
                assert(m@ =~= parse_command_spec(bytes@)->Ok_0);
            }
            Ok(m)
        } else {
            if bytes.len() < 4 + MAC_SIZE {
                return Err(SecureChannelError::FramingError);
            }
            let n: usize = (bytes[2] as usize) * 256 + (bytes[3] as usize);
            if bytes.len() - 4 - MAC_SIZE != n {
                return Err(SecureChannelError::FramingError);
            }
            let data = copy_range(bytes, 4, 4 + n);
            let tag = copy_range(bytes, 4 + n, 4 + n + MAC_SIZE);
            let m = CommandMessage {
                command_type: t,
                session_id: Some(SessionId(bytes[1])),
                data,
                mac: Some(Mac { tag }),
            };
            proof {
                assert(bytes@.len() == 4 + (n as nat) + MAC_SIZE);
                assert(be16_value(bytes@[2], bytes@[3]) == n as nat);
                assert(parse_command_spec(bytes@) is Ok);
                let v = parse_command_spec(bytes@)->Ok_0;
                assert(v.mac->0 == bytes@.subrange(4 + n as int, 4 + n + MAC_SIZE));
                assert(m@.mac->0 == v.mac->0);
                assert(m@ =~= v);
            }
            Ok(m)
        }
    }
}

/// Round trip of the command envelope: every well-formed command message
/// decodes from its own wire form unchanged.
pub proof fn lemma_command_round_trip(v: CommandMessageView)
    requires
        command_wf(v),
    ensures
        parse_command_spec(serialize_command_spec(v)) == Ok::<
            CommandMessageView,
            SecureChannelError,
        >(v),
{
    let s = serialize_command_spec(v);
    let n = v.data.len();
    crate::bytes::lemma_be16_round_trip(n);
    if v.command_type.has_session_frame_spec() {
        let sid = v.session_id->0;
        let tag = v.mac->0;
        assert(s =~= seq![v.command_type.code_spec(), sid] + be16(n) + v.data + tag);
        assert(s.len() == 4 + n + MAC_SIZE);
        assert(s[2] == be16(n)[0] && s[3] == be16(n)[1]);
        assert(s.subrange(4, 4 + n as int) =~= v.data);
        assert(s.subrange(4 + n as int, 4 + n + MAC_SIZE) =~= tag);
        assert(parse_command_spec(s)->Ok_0 =~= v);
    } else {
        assert(s =~= seq![v.command_type.code_spec()] + be16(n) + v.data);
        assert(s.len() == 3 + n);
        assert(s[1] == be16(n)[0] && s[2] == be16(n)[1]);
        assert(s.subrange(3, 3 + n as int) =~= v.data);
        assert(parse_command_spec(s)->Ok_0 =~= v);
    }
}

} // verus!

//! Inbound response envelopes.
//!
//! Wire layout, big-endian: status code (1 byte), session id (1 byte),
//! payload length (2 bytes), payload, MAC tag (present on every response
//! but the unauthenticated challenge exchange). A success status is the
//! instruction code of the answered command with the high bit set.

use vstd::prelude::*;

use crate::bytes::{be16, be16_value, copy_range, push_all, push_be16};
use crate::channel::SessionId;
use crate::error::SecureChannelError;
use crate::mac::{Mac, MAC_SIZE};

verus! {

/// Status byte of a success response to the session-open command.
pub const CREATE_SESSION_RESPONSE_CODE: u8 = 0x83;

/// Status byte of a success response to the authenticate command.
pub const AUTHENTICATE_SESSION_RESPONSE_CODE: u8 = 0x84;

/// Status byte of a success response to a steady-state command.
pub const SESSION_MESSAGE_RESPONSE_CODE: u8 = 0x85;

/// Whether `code` is a status byte this channel profile knows.
pub open spec fn response_code_known(code: u8) -> bool {
    code == CREATE_SESSION_RESPONSE_CODE || code == AUTHENTICATE_SESSION_RESPONSE_CODE || code
        == SESSION_MESSAGE_RESPONSE_CODE
}

/// Whether responses with this status carry a MAC tag: all but the
/// unauthenticated challenge exchange.
pub open spec fn response_has_mac(code: u8) -> bool {
    code != CREATE_SESSION_RESPONSE_CODE
}

/// The mathematical value of a [`ResponseMessage`].
#[verifier::ext_equal]
pub struct ResponseMessageView {
    pub code: u8,
    pub session_id: u8,
    pub data: Seq<u8>,
    pub mac: Option<Seq<u8>>,
}

/// One inbound unit: status, session id, payload and optional MAC tag.
#[derive(Debug)]
pub struct ResponseMessage {
    pub code: u8,
    pub session_id: SessionId,
    pub data: Vec<u8>,
    pub mac: Option<Mac>,
}

impl View for ResponseMessage {
    type V = ResponseMessageView;

    open spec fn view(&self) -> ResponseMessageView {
        ResponseMessageView {
            code: self.code,
            session_id: self.session_id.0,
            data: self.data@,
            mac: match self.mac {
                Some(m) => Some(m@),
                None => None,
            },
        }
    }
}

/// A response is well formed when its status is known, the MAC tag is
/// present exactly on authenticated statuses, and the payload length fits
/// the two-byte field.
pub open spec fn response_wf(v: ResponseMessageView) -> bool {
    &&& v.data.len() <= 0xffff
    &&& response_code_known(v.code)
    &&& if response_has_mac(v.code) {
        v.mac matches Some(t) && t.len() == MAC_SIZE
    } else {
        v.mac is None
    }
}

/// The wire form of a response message.
pub open spec fn serialize_response_spec(v: ResponseMessageView) -> Seq<u8> {
    seq![v.code, v.session_id] + be16(v.data.len()) + v.data + (match v.mac {
        Some(t) => t,
        None => Seq::<u8>::empty(),
    })
}

/// The response a wire buffer decodes to, or the framing error it is
/// rejected with: unknown status, short buffer, or a payload length field
/// that does not match the buffer.
pub open spec fn parse_response_spec(b: Seq<u8>) -> Result<
    ResponseMessageView,
    SecureChannelError,
> {
    if b.len() < 4 {
        Err(SecureChannelError::FramingError)
    } else if !response_code_known(b[0]) {
        Err(SecureChannelError::FramingError)
    } else {
        let n = be16_value(b[2], b[3]);
        if !response_has_mac(b[0]) {
            if b.len() != 4 + n {
                Err(SecureChannelError::FramingError)
            } else {
                Ok(
                    ResponseMessageView {
                        code: b[0],
                        session_id: b[1],
                        data: b.subrange(4, 4 + n as int),
                        mac: None,
                    },
                )
            }
        } else {
            if b.len() != 4 + n + MAC_SIZE {
                Err(SecureChannelError::FramingError)
            } else {
                Ok(
                    ResponseMessageView {
                        code: b[0],
                        session_id: b[1],
                        data: b.subrange(4, 4 + n as int),
                        mac: Some(b.subrange(4 + n as int, 4 + n + MAC_SIZE)),
                    },
                )
            }
        }
    }
}

impl ResponseMessage {
    /// See [`response_wf`].
    pub open spec fn wf(&self) -> bool {
        response_wf(self@)
    }

    /// Encodes the response in its wire form.
    pub fn serialize(&self) -> (r: Vec<u8>)
        requires
            self.wf(),
        ensures
            r@ == serialize_response_spec(self@),
    {
        let mut out: Vec<u8> = Vec::new();
        out.push(self.code);
        out.push(self.session_id.0);
        push_be16(&mut out, self.data.len() as u16);
        push_all(&mut out, self.data.as_slice());
        match &self.mac {
            Some(m) => push_all(&mut out, m.as_slice()),
            None => (),
        }
        proof {
            assert(out@ =~= serialize_response_spec(self@));
        }
        out
    }

    /// Decodes a wire buffer.
    pub fn parse(bytes: &[u8]) -> (r: Result<ResponseMessage, SecureChannelError>)
        ensures
            match parse_response_spec(bytes@) {
                Ok(v) => r matches Ok(m) && m@ == v && m.wf(),
                Err(e) => r matches Err(e2) && e2 == e,
            },
    {
        if bytes.len() < 4 {
            return Err(SecureChannelError::FramingError);
        }
        let code = bytes[0];
        if !(code == CREATE_SESSION_RESPONSE_CODE || code == AUTHENTICATE_SESSION_RESPONSE_CODE
            || code == SESSION_MESSAGE_RESPONSE_CODE) {
            return Err(SecureChannelError::FramingError);
        }
        let n: usize = (bytes[2] as usize) * 256 + (bytes[3] as usize);
        if code == CREATE_SESSION_RESPONSE_CODE {
            if bytes.len() - 4 != n {
                return Err(SecureChannelError::FramingError);
            }
            let data = copy_range(bytes, 4, 4 + n);
            let m = ResponseMessage {
                code,
                session_id: SessionId(bytes[1]),
                data,
                mac: None,
            };
            proof {
                assert(m@ =~= parse_response_spec(bytes@)->Ok_0);
            }
            Ok(m)
        } else {
            if bytes.len() < 4 + MAC_SIZE {
                return Err(SecureChannelError::FramingError);
            }
            if bytes.len() - 4 - MAC_SIZE != n {
                return Err(SecureChannelError::FramingError);
            }
            let data = copy_range(bytes, 4, 4 + n);
            let tag = copy_range(bytes, 4 + n, 4 + n + MAC_SIZE);
            let m = ResponseMessage {
                code,
                session_id: SessionId(bytes[1]),
                data,
                mac: Some(Mac { tag }),
            };
            proof {
                let v = parse_response_spec(bytes@)->Ok_0;
                assert(m@.mac->0 == v.mac->0);
                assert(m@ =~= v);
            }
            Ok(m)
        }
    }
}

/// Round trip of the response envelope: every well-formed response decodes
/// from its own wire form unchanged.
pub proof fn lemma_response_round_trip(v: ResponseMessageView)
    requires
        response_wf(v),
    ensures
        parse_response_spec(serialize_response_spec(v)) == Ok::<
            ResponseMessageView,
            SecureChannelError,
        >(v),
{
    let s = serialize_response_spec(v);
    let n = v.data.len();
    crate::bytes::lemma_be16_round_trip(n);
    if response_has_mac(v.code) {
        let tag = v.mac->0;
        assert(s =~= seq![v.code, v.session_id] + be16(n) + v.data + tag);
        assert(s.len() == 4 + n + MAC_SIZE);
        assert(s[2] == be16(n)[0] && s[3] == be16(n)[1]);
        assert(s.subrange(4, 4 + n as int) =~= v.data);
        assert(s.subrange(4 + n as int, 4 + n + MAC_SIZE) =~= tag);
        assert(parse_response_spec(s)->Ok_0 =~= v);
    } else {
        assert(s =~= seq![v.code, v.session_id] + be16(n) + v.data);
        assert(s.len() == 4 + n);
        assert(s[2] == be16(n)[0] && s[3] == be16(n)[1]);
        assert(s.subrange(4, 4 + n as int) =~= v.data);
        assert(parse_response_spec(s)->Ok_0 =~= v);
    }
}

} // verus!

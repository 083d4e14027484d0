//! Wire envelopes, padding and the small fixed-size value types.

use yubihsm_channel::challenge::{Challenge, CHALLENGE_SIZE};
use yubihsm_channel::channel::SessionId;
use yubihsm_channel::command::{CommandMessage, CommandType};
use yubihsm_channel::context::{Context, CONTEXT_SIZE};
use yubihsm_channel::cryptogram::Cryptogram;
use yubihsm_channel::mac::{Mac, MAC_SIZE};
use yubihsm_channel::padding::{pad, unpad};
use yubihsm_channel::response::ResponseMessage;
use yubihsm_channel::serial::{is_target_device, select_device, DeviceSelectError, SerialNumber};
use yubihsm_channel::static_keys::StaticKeys;
use yubihsm_channel::{SecureChannelError, KEY_SIZE};

#[test]
fn command_serializes_to_exact_wire_form() {
    let msg = CommandMessage {
        command_type: CommandType::CreateSession,
        session_id: None,
        data: vec![0xaa, 0xbb],
        mac: None,
    };
    assert_eq!(msg.serialize(), vec![0x03, 0x00, 0x02, 0xaa, 0xbb]);

    let framed = CommandMessage {
        command_type: CommandType::SessionMessage,
        session_id: Some(SessionId(5)),
        data: vec![0x01],
        mac: Some(Mac::new(vec![9, 8, 7, 6, 5, 4, 3, 2]).unwrap()),
    };
    assert_eq!(
        framed.serialize(),
        vec![0x05, 0x05, 0x00, 0x01, 0x01, 9, 8, 7, 6, 5, 4, 3, 2]
    );
}

#[test]
fn command_parse_round_trip() {
    let framed = CommandMessage {
        command_type: CommandType::AuthenticateSession,
        session_id: Some(SessionId(2)),
        data: vec![1, 2, 3, 4, 5, 6, 7, 8],
        mac: Some(Mac::new(vec![0; MAC_SIZE]).unwrap()),
    };
    let wire = framed.serialize();
    let parsed = CommandMessage::parse(&wire).unwrap();
    assert_eq!(parsed.command_type, CommandType::AuthenticateSession);
    assert_eq!(parsed.session_id, Some(SessionId(2)));
    assert_eq!(parsed.data, vec![1, 2, 3, 4, 5, 6, 7, 8]);
    assert_eq!(parsed.mac.unwrap().as_slice(), &[0u8; MAC_SIZE]);
}

#[test]
fn command_parse_rejects_malformed_buffers() {
    assert_eq!(
        CommandMessage::parse(&[]).unwrap_err(),
        SecureChannelError::FramingError
    );
    // Unknown instruction byte.
    assert_eq!(
        CommandMessage::parse(&[0x77, 0, 0]).unwrap_err(),
        SecureChannelError::FramingError
    );
    // Length field does not match the buffer.
    assert_eq!(
        CommandMessage::parse(&[0x03, 0x00, 0x05, 1, 2]).unwrap_err(),
        SecureChannelError::FramingError
    );
    // Framed command too short to even hold its MAC.
    assert_eq!(
        CommandMessage::parse(&[0x05, 1, 0, 0]).unwrap_err(),
        SecureChannelError::FramingError
    );
    // Trailing garbage.
    assert_eq!(
        CommandMessage::parse(&[0x03, 0x00, 0x01, 7, 7]).unwrap_err(),
        SecureChannelError::FramingError
    );
}

#[test]
fn response_serializes_to_exact_wire_form() {
    let resp = ResponseMessage {
        code: 0x85,
        session_id: SessionId(1),
        data: vec![0xde, 0xad],
        mac: Some(Mac::new(vec![1, 1, 2, 2, 3, 3, 4, 4]).unwrap()),
    };
    assert_eq!(
        resp.serialize(),
        vec![0x85, 0x01, 0x00, 0x02, 0xde, 0xad, 1, 1, 2, 2, 3, 3, 4, 4]
    );
}

#[test]
fn response_parse_round_trip() {
    let resp = ResponseMessage {
        code: 0x83,
        session_id: SessionId(9),
        data: vec![3, 3, 3],
        mac: None,
    };
    let wire = resp.serialize();
    let parsed = ResponseMessage::parse(&wire).unwrap();
    assert_eq!(parsed.code, 0x83);
    assert_eq!(parsed.session_id, SessionId(9));
    assert_eq!(parsed.data, vec![3, 3, 3]);
    assert!(parsed.mac.is_none());
}

#[test]
fn response_parse_rejects_malformed_buffers() {
    assert_eq!(
        ResponseMessage::parse(&[0x85, 0, 0]).unwrap_err(),
        SecureChannelError::FramingError
    );
    // Unknown status byte.
    assert_eq!(
        ResponseMessage::parse(&[0x44, 0, 0, 0]).unwrap_err(),
        SecureChannelError::FramingError
    );
    // MAC'd status without room for the tag.
    assert_eq!(
        ResponseMessage::parse(&[0x85, 0, 0, 0]).unwrap_err(),
        SecureChannelError::FramingError
    );
}

#[test]
fn padding_pads_to_block_boundary_with_marker() {
    assert_eq!(
        pad(&[]),
        vec![0x80, 0, 0, 0, 0, 0, 0, 0, 0, 0, 0, 0, 0, 0, 0, 0]
    );
    let p15 = pad(&[7u8; 15]);
    assert_eq!(p15.len(), 16);
    assert_eq!(p15[15], 0x80);
    // A block-aligned payload still grows by one whole block.
    let p16 = pad(&[7u8; 16]);
    assert_eq!(p16.len(), 32);
    assert_eq!(p16[16], 0x80);
}

#[test]
fn padding_round_trip() {
    for n in [0usize, 1, 15, 16, 17, 31, 100] {
        let payload: Vec<u8> = (0..n).map(|i| i as u8).collect();
        assert_eq!(unpad(&pad(&payload)).unwrap(), payload);
    }
}

#[test]
fn unpad_rejects_missing_marker() {
    assert_eq!(unpad(&[0u8; 16]), None);
    assert_eq!(unpad(&[]), None);
    assert_eq!(unpad(&[1, 2, 3]), None);
}

#[test]
fn value_types_enforce_their_lengths() {
    assert_eq!(
        StaticKeys::new(vec![0; KEY_SIZE - 1], vec![0; KEY_SIZE]).err().unwrap(),
        SecureChannelError::KeyLengthInvalid
    );
    assert_eq!(
        Challenge::new(vec![0; CHALLENGE_SIZE + 1]).unwrap_err(),
        SecureChannelError::FramingError
    );
    assert_eq!(
        Cryptogram::new(vec![0; 7]).unwrap_err(),
        SecureChannelError::FramingError
    );
    assert_eq!(
        Mac::new(vec![0; 9]).unwrap_err(),
        SecureChannelError::FramingError
    );
    let ctx = Context::from_challenges(
        &Challenge::new(vec![1; CHALLENGE_SIZE]).unwrap(),
        &Challenge::new(vec![2; CHALLENGE_SIZE]).unwrap(),
    );
    assert_eq!(ctx.as_slice().len(), CONTEXT_SIZE);
    assert_eq!(ctx.as_slice(), &[1, 1, 1, 1, 1, 1, 1, 1, 2, 2, 2, 2, 2, 2, 2, 2]);
}

#[test]
fn random_challenges_have_the_fixed_length() {
    let a = Challenge::random();
    let b = Challenge::random();
    assert_eq!(a.as_slice().len(), CHALLENGE_SIZE);
    assert_eq!(b.as_slice().len(), CHALLENGE_SIZE);
}

#[test]
fn cryptogram_constant_time_compare() {
    let a = Cryptogram::new(vec![1, 2, 3, 4, 5, 6, 7, 8]).unwrap();
    let b = Cryptogram::new(vec![1, 2, 3, 4, 5, 6, 7, 8]).unwrap();
    let c = Cryptogram::new(vec![1, 2, 3, 4, 5, 6, 7, 9]).unwrap();
    assert!(a.matches_ct(&b));
    assert!(!a.matches_ct(&c));
}

#[test]
fn device_selection_rules() {
    let serials = vec![
        SerialNumber(100),
        SerialNumber(200),
        SerialNumber(100),
        SerialNumber(300),
    ];
    // The last device carrying the requested serial wins.
    assert_eq!(select_device(&serials, Some(SerialNumber(100))), Ok(2));
    assert_eq!(select_device(&serials, Some(SerialNumber(300))), Ok(3));
    assert_eq!(
        select_device(&serials, Some(SerialNumber(999))),
        Err(DeviceSelectError::SerialNotFound)
    );
    // Without a request, only a single enumerated device is acceptable.
    assert_eq!(select_device(&vec![SerialNumber(7)], None), Ok(0));
    assert_eq!(
        select_device(&serials, None),
        Err(DeviceSelectError::NotExactlyOne)
    );
    assert_eq!(
        select_device(&vec![], None),
        Err(DeviceSelectError::NotExactlyOne)
    );
}

#[test]
fn target_device_filter() {
    assert!(is_target_device(0x1050, 0x0030));
    assert!(!is_target_device(0x1050, 0x0031));
    assert!(!is_target_device(0x1051, 0x0030));
}

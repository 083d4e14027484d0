//! Full-channel behaviour with one simulated host and one simulated
//! device end, sharing (or not sharing) the static keys.

use yubihsm_channel::challenge::Challenge;
use yubihsm_channel::channel::{
    create_session_command, create_session_response, parse_create_session_command,
    parse_create_session_response, Channel, ChannelState, SessionId,
};
use yubihsm_channel::command::CommandType;
use yubihsm_channel::static_keys::StaticKeys;
use yubihsm_channel::SecureChannelError;

fn scenario_keys() -> StaticKeys {
    let enc: Vec<u8> = (0x00u8..0x10u8).collect();
    let mac: Vec<u8> = (0x10u8..0x20u8).collect();
    StaticKeys::new(enc, mac).ok().unwrap()
}

fn host_challenge() -> Challenge {
    Challenge::new(vec![1, 2, 3, 4, 5, 6, 7, 8]).unwrap()
}

fn device_challenge() -> Challenge {
    Challenge::new(vec![0x11, 0x12, 0x13, 0x14, 0x15, 0x16, 0x17, 0x18]).unwrap()
}

/// Builds an established host/device channel pair by running the whole
/// handshake between the two simulated ends.
fn established_pair() -> (Channel, Channel) {
    let mut host = Channel::new(SessionId(7), &scenario_keys(), &host_challenge(), &device_challenge());
    let mut device = Channel::new(SessionId(7), &scenario_keys(), &host_challenge(), &device_challenge());
    let device_cryptogram = device.device_cryptogram();
    host.verify_device_cryptogram(&device_cryptogram).unwrap();
    let auth = host.authenticate_session().unwrap();
    device.verify_authenticate_session(&auth).unwrap();
    let auth_reply = device.authenticate_response().unwrap();
    host.verify_authenticate_response(&auth_reply).unwrap();
    assert_eq!(host.state(), ChannelState::Established);
    assert_eq!(device.state(), ChannelState::Established);
    (host, device)
}

#[test]
fn tampered_authenticate_response_fails() {
    let mut host = Channel::new(SessionId(7), &scenario_keys(), &host_challenge(), &device_challenge());
    let mut device = Channel::new(SessionId(7), &scenario_keys(), &host_challenge(), &device_challenge());
    host.verify_device_cryptogram(&device.device_cryptogram()).unwrap();
    let auth = host.authenticate_session().unwrap();
    device.verify_authenticate_session(&auth).unwrap();
    let mut auth_reply = device.authenticate_response().unwrap();
    let last = auth_reply.len() - 1;
    auth_reply[last] ^= 1;
    let r = host.verify_authenticate_response(&auth_reply);
    assert_eq!(r.unwrap_err(), SecureChannelError::AuthenticationFailed);
    assert_eq!(host.state(), ChannelState::Terminated);
}

#[test]
fn bootstrap_symmetry() {
    let host = Channel::new(SessionId(1), &scenario_keys(), &host_challenge(), &device_challenge());
    let device = Channel::new(SessionId(1), &scenario_keys(), &host_challenge(), &device_challenge());
    assert_eq!(
        host.device_cryptogram().as_slice(),
        device.device_cryptogram().as_slice()
    );
    assert_eq!(
        host.host_cryptogram().as_slice(),
        device.host_cryptogram().as_slice()
    );
}

#[test]
fn bootstrap_handshake_establishes_both_ends() {
    let (host, device) = established_pair();
    assert_eq!(host.message_counter(), 1);
    assert_eq!(device.message_counter(), 1);
}

#[test]
fn bootstrap_mismatched_keys_fail() {
    let other = StaticKeys::new(vec![0xaa; 16], vec![0xbb; 16]).ok().unwrap();
    let mut host = Channel::new(SessionId(1), &scenario_keys(), &host_challenge(), &device_challenge());
    let mut device = Channel::new(SessionId(1), &other, &host_challenge(), &device_challenge());
    let r = host.verify_device_cryptogram(&device.device_cryptogram());
    assert_eq!(r.unwrap_err(), SecureChannelError::AuthenticationFailed);
    assert_eq!(host.state(), ChannelState::Terminated);
    // The device refuses the host's cryptogram just the same.
    let mut host2 = Channel::new(SessionId(1), &scenario_keys(), &host_challenge(), &device_challenge());
    let auth = host2.authenticate_session().unwrap();
    let r2 = device.verify_authenticate_session(&auth);
    assert_eq!(r2.unwrap_err(), SecureChannelError::AuthenticationFailed);
    assert_eq!(device.state(), ChannelState::Terminated);
}

#[test]
fn wrap_before_authentication_is_refused() {
    let mut host = Channel::new(SessionId(1), &scenario_keys(), &host_challenge(), &device_challenge());
    let r = host.wrap(CommandType::SessionMessage, &[1, 2, 3]);
    assert_eq!(r.unwrap_err(), SecureChannelError::ProtocolStateError);
}

#[test]
fn wrap_refuses_unframed_instruction() {
    let (mut host, _) = established_pair();
    let r = host.wrap(CommandType::CreateSession, &[1, 2, 3]);
    assert_eq!(r.unwrap_err(), SecureChannelError::FramingError);
    assert_eq!(host.message_counter(), 1);
}

#[test]
fn round_trip_command_and_response() {
    let (mut host, mut device) = established_pair();
    for payload in [
        vec![],
        vec![0u8],
        vec![7u8; 16],
        (0u8..=255u8).collect::<Vec<u8>>(),
    ] {
        let wire = host.wrap(CommandType::SessionMessage, &payload).unwrap();
        let (instruction, got) = device.unwrap_command(&wire).unwrap();
        assert_eq!(instruction, CommandType::SessionMessage);
        assert_eq!(got, payload);
        let reply: Vec<u8> = payload.iter().rev().cloned().collect();
        let wire_back = device.wrap_response(&reply).unwrap();
        let got_back = host.unwrap(&wire_back).unwrap();
        assert_eq!(got_back, reply);
    }
    assert_eq!(host.message_counter(), 5);
    assert_eq!(device.message_counter(), 5);
}

#[test]
fn round_trip_largest_payload() {
    let (mut host, mut device) = established_pair();
    let payload = vec![0x5au8; 2031];
    let wire = host.wrap(CommandType::SessionMessage, &payload).unwrap();
    assert!(wire.len() <= 2048);
    let (_, got) = device.unwrap_command(&wire).unwrap();
    assert_eq!(got, payload);
}

#[test]
fn oversized_payload_rejected_before_any_state_change() {
    let (mut host, mut device) = established_pair();
    let too_big = vec![0u8; 2032];
    let r = host.wrap(CommandType::SessionMessage, &too_big);
    assert_eq!(r.unwrap_err(), SecureChannelError::FramingError);
    assert_eq!(host.message_counter(), 1);
    assert_eq!(host.state(), ChannelState::Established);
    // The channel still works afterwards.
    let wire = host.wrap(CommandType::SessionMessage, &[1]).unwrap();
    let (_, got) = device.unwrap_command(&wire).unwrap();
    assert_eq!(got, vec![1]);
}

#[test]
fn counter_advances_by_one_per_exchange() {
    let (mut host, mut device) = established_pair();
    assert_eq!(host.message_counter(), 1);
    let w1 = host.wrap(CommandType::SessionMessage, &[1]).unwrap();
    assert_eq!(host.message_counter(), 2);
    device.unwrap_command(&w1).unwrap();
    assert_eq!(device.message_counter(), 1);
    let r1 = device.wrap_response(&[2]).unwrap();
    assert_eq!(device.message_counter(), 2);
    host.unwrap(&r1).unwrap();
    assert_eq!(host.message_counter(), 2);
}

#[test]
fn equal_payloads_in_successive_messages_encrypt_differently() {
    // The IV is the (never-reused) counter, so the same plaintext never
    // repeats its ciphertext within a session.
    let (mut host, mut device) = established_pair();
    let w1 = host.wrap(CommandType::SessionMessage, &[9u8; 32]).unwrap();
    device.unwrap_command(&w1).unwrap();
    let r1 = device.wrap_response(&[0]).unwrap();
    host.unwrap(&r1).unwrap();
    let w2 = host.wrap(CommandType::SessionMessage, &[9u8; 32]).unwrap();
    // Strip instruction/session id and compare the ciphertext fields.
    assert_ne!(w1[4..36], w2[4..36]);
}

#[test]
fn tampered_ciphertext_fails_and_channel_stays_dead() {
    let (mut host, mut device) = established_pair();
    let wire = host.wrap(CommandType::SessionMessage, &[1, 2, 3]).unwrap();
    device.unwrap_command(&wire).unwrap();
    let mut reply = device.wrap_response(&[4, 5, 6]).unwrap();
    // Flip one bit inside the encrypted payload.
    reply[5] ^= 0x01;
    let r = host.unwrap(&reply);
    assert_eq!(r.unwrap_err(), SecureChannelError::AuthenticationFailed);
    assert_eq!(host.state(), ChannelState::Terminated);
    // No silent recovery: everything on this channel now fails.
    let r2 = host.wrap(CommandType::SessionMessage, &[7]);
    assert_eq!(r2.unwrap_err(), SecureChannelError::ProtocolStateError);
    let r3 = host.unwrap(&[0u8; 16]);
    assert_eq!(r3.unwrap_err(), SecureChannelError::ProtocolStateError);
}

#[test]
fn tampered_mac_fails() {
    let (mut host, mut device) = established_pair();
    let mut wire = host.wrap(CommandType::SessionMessage, &[1, 2, 3]).unwrap();
    let last = wire.len() - 1;
    wire[last] ^= 0x80;
    let r = device.unwrap_command(&wire);
    assert_eq!(r.unwrap_err(), SecureChannelError::AuthenticationFailed);
    assert_eq!(device.state(), ChannelState::Terminated);
    let r2 = device.wrap_response(&[1]);
    assert_eq!(r2.unwrap_err(), SecureChannelError::ProtocolStateError);
}

#[test]
fn reordered_exchange_breaks_the_chain() {
    // Replaying the first command after the second desynchronizes the MAC
    // chain and is detected.
    let (mut host, mut device) = established_pair();
    let w1 = host.wrap(CommandType::SessionMessage, &[1]).unwrap();
    device.unwrap_command(&w1).unwrap();
    let r1 = device.wrap_response(&[1]).unwrap();
    host.unwrap(&r1).unwrap();
    let _w2 = host.wrap(CommandType::SessionMessage, &[2]).unwrap();
    let r = device.unwrap_command(&w1);
    assert_eq!(r.unwrap_err(), SecureChannelError::AuthenticationFailed);
}

#[test]
fn session_id_mismatch_is_a_framing_error() {
    let (mut host, _) = established_pair();
    let mut other_device = Channel::new(
        SessionId(9),
        &scenario_keys(),
        &host_challenge(),
        &device_challenge(),
    );
    let auth = other_device.authenticate_session().unwrap();
    drop(auth);
    let wire = host.wrap(CommandType::SessionMessage, &[1]).unwrap();
    let r = other_device.unwrap_command(&wire);
    assert_eq!(r.unwrap_err(), SecureChannelError::FramingError);
}

#[test]
fn create_session_exchange_round_trip() {
    let cmd = create_session_command(0x0001, &host_challenge());
    let wire = cmd.serialize();
    assert_eq!(wire, vec![0x03, 0x00, 0x0a, 0, 1, 1, 2, 3, 4, 5, 6, 7, 8]);
    let (auth_key_id, challenge) = parse_create_session_command(&wire).unwrap();
    assert_eq!(auth_key_id, 1);
    assert_eq!(challenge.as_slice(), host_challenge().as_slice());

    let device = Channel::new(SessionId(3), &scenario_keys(), &host_challenge(), &device_challenge());
    let resp = create_session_response(SessionId(3), &device_challenge(), &device.device_cryptogram());
    let resp_wire = resp.serialize();
    let (sid, dch, dcg) = parse_create_session_response(&resp_wire).unwrap();
    assert_eq!(sid, SessionId(3));
    assert_eq!(dch.as_slice(), device_challenge().as_slice());
    assert_eq!(dcg.as_slice(), device.device_cryptogram().as_slice());
}

#[test]
fn create_session_response_wrong_shape_is_refused() {
    let r = parse_create_session_response(&[0x83, 1, 0, 2, 9, 9]);
    assert_eq!(r.unwrap_err(), SecureChannelError::FramingError);
}

#[test]
fn authenticate_twice_is_a_state_error() {
    let (mut host, _) = established_pair();
    let r = host.authenticate_session();
    assert_eq!(r.unwrap_err(), SecureChannelError::ProtocolStateError);
}

#[test]
fn concrete_scenario_values_are_stable() {
    // Fixed test keys and challenges pin the whole derivation chain: any
    // change to the KDF layout, labels, padding, IV or MAC chaining shows
    // up here as a changed byte.
    let mut host = Channel::new(
        SessionId(0),
        &scenario_keys(),
        &host_challenge(),
        &device_challenge(),
    );
    assert_eq!(
        host.device_cryptogram().as_slice(),
        &[0xf3, 0x56, 0x21, 0x7b, 0xd2, 0x6f, 0xfd, 0xb5]
    );
    assert_eq!(
        host.host_cryptogram().as_slice(),
        &[0xf5, 0x2f, 0x65, 0x42, 0x4e, 0xba, 0xae, 0x26]
    );
    let auth = host.authenticate_session().unwrap();
    assert_eq!(
        auth.serialize(),
        vec![
            0x04, 0x00, 0x00, 0x08, 0xf5, 0x2f, 0x65, 0x42, 0x4e, 0xba, 0xae, 0x26, 0xcd, 0x84,
            0xd2, 0x85, 0x13, 0xc7, 0x7f, 0x65,
        ]
    );
    let wire = host
        .wrap(CommandType::SessionMessage, &[0xde, 0xad, 0xbe, 0xef])
        .unwrap();
    assert_eq!(
        wire,
        vec![
            0x05, 0x00, 0x00, 0x10, 0xdf, 0x13, 0x77, 0x83, 0xbf, 0x1d, 0x97, 0x0e, 0x3c, 0xe5,
            0x1c, 0x2c, 0xdf, 0x4c, 0x87, 0x6c, 0x88, 0x80, 0x66, 0x64, 0x98, 0x01, 0x38, 0x26,
        ]
    );
}

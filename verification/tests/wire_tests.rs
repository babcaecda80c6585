//! The wire codec against the de-facto protocol implementation.

use bytes::BytesMut;
use postgres_protocol::message::backend::Message;
use postgres_protocol::message::frontend;

use pg_auth_proxy::handshake::DbSpec;
use pg_auth_proxy::wire::{
    classify_auth_prompt, encode_password_message, encode_ssl_request, encode_startup_frame,
    read_be_u32, ssl_refusal_response, write_be_u32,
};

#[test]
fn be_u32_roundtrip() {
    let mut out: Vec<u8> = Vec::new();
    write_be_u32(&mut out, 80877103);
    assert_eq!(out, vec![0x04, 0xd2, 0x16, 0x2f]);
    assert_eq!(read_be_u32(&out, 0), 80877103);
}

#[test]
fn ssl_request_matches_reference_encoder() {
    let mut reference = BytesMut::new();
    frontend::ssl_request(&mut reference);
    assert_eq!(encode_ssl_request(), reference.to_vec());
}

#[test]
fn ssl_request_exact_bytes() {
    assert_eq!(encode_ssl_request(), vec![0, 0, 0, 8, 0x04, 0xd2, 0x16, 0x2f]);
}

#[test]
fn ssl_refusal_is_single_byte_0x4e() {
    assert_eq!(ssl_refusal_response(), vec![0x4e]);
}

#[test]
fn startup_frame_matches_reference_encoder() {
    let mut reference = BytesMut::new();
    frontend::startup_message(
        vec![("client_encoding", "UTF8"), ("user", "alice"), ("database", "appdb")],
        &mut reference,
    )
    .unwrap();
    let ours = encode_startup_frame(b"alice", b"appdb").unwrap();
    assert_eq!(ours, reference.to_vec());
}

#[test]
fn db_spec_startup_message_matches_reference_encoder() {
    // A user name with multibyte characters survives re-encoding.
    let user = "h\u{e9}lo\u{ef}se";
    let mut reference = BytesMut::new();
    frontend::startup_message(
        vec![("client_encoding", "UTF8"), ("user", user), ("database", "db1")],
        &mut reference,
    )
    .unwrap();
    let spec = DbSpec::new(user.to_string(), "db1".to_string());
    assert_eq!(spec.startup_message().unwrap(), reference.to_vec());
}

#[test]
fn startup_frame_declared_length_counts_whole_frame() {
    let frame = encode_startup_frame(b"u", b"d").unwrap();
    let declared = read_be_u32(&frame, 0) as usize;
    assert_eq!(declared, frame.len());
    assert_eq!(read_be_u32(&frame, 4), 196608);
}

#[test]
fn startup_frame_rejects_interior_nul() {
    assert!(encode_startup_frame(b"ali\0ce", b"appdb").is_err());
    assert!(encode_startup_frame(b"alice", b"app\0db").is_err());
}

#[test]
fn password_message_matches_reference_encoder() {
    let mut reference = BytesMut::new();
    frontend::password_message(b"sesame-open", &mut reference).unwrap();
    let ours = encode_password_message(b"sesame-open").unwrap();
    assert_eq!(ours, reference.to_vec());
}

#[test]
fn password_message_rejects_interior_nul() {
    assert!(encode_password_message(b"a\0b").is_err());
}

#[test]
fn cleartext_prompt_accepted_and_matches_reference_parser() {
    let frame: Vec<u8> = vec![0x52, 0, 0, 0, 8, 0, 0, 0, 3];
    assert!(classify_auth_prompt(&frame).is_ok());
    let mut buf = BytesMut::from(&frame[..]);
    let parsed = Message::parse(&mut buf).unwrap().unwrap();
    assert!(matches!(parsed, Message::AuthenticationCleartextPassword));
}

#[test]
fn other_auth_codes_are_rejected() {
    // Authentication code 5 is an MD5-password prompt.
    let md5: Vec<u8> = vec![0x52, 0, 0, 0, 12, 0, 0, 0, 5, 1, 2, 3, 4];
    assert!(classify_auth_prompt(&md5).is_err());
    // AuthenticationOk (code 0) is not a password prompt either.
    let ok: Vec<u8> = vec![0x52, 0, 0, 0, 8, 0, 0, 0, 0];
    assert!(classify_auth_prompt(&ok).is_err());
    // A truncated prompt is rejected.
    let short: Vec<u8> = vec![0x52, 0, 0, 0, 8, 0, 0];
    assert!(classify_auth_prompt(&short).is_err());
    // A non-authentication tag is rejected.
    let error_msg: Vec<u8> = vec![0x45, 0, 0, 0, 8, 0, 0, 0, 3];
    assert!(classify_auth_prompt(&error_msg).is_err());
}

//! Startup parsing and the handshake state machine.

use pg_auth_proxy::errors::{ProtocolReason, ProxyError};
use pg_auth_proxy::handshake::{
    classify_ssl_response, handshake_step, parse_startup, DbSpec, HandshakeAction,
};
use pg_auth_proxy::wire::ssl_refusal_response;

fn payload(pairs: &[(&[u8], &[u8])]) -> Vec<u8> {
    let mut out = Vec::new();
    for (k, v) in pairs {
        out.extend_from_slice(k);
        out.push(0);
        out.extend_from_slice(v);
        out.push(0);
    }
    out.push(0);
    out
}

fn startup_frame_with_payload(declared: u32, body: &[u8]) -> Vec<u8> {
    let mut out = Vec::new();
    out.extend_from_slice(&declared.to_be_bytes());
    out.extend_from_slice(&196608u32.to_be_bytes());
    out.extend_from_slice(body);
    out
}

fn startup_frame(pairs: &[(&[u8], &[u8])]) -> Vec<u8> {
    let body = payload(pairs);
    startup_frame_with_payload((8 + body.len()) as u32, &body)
}

fn probe_frame() -> Vec<u8> {
    let mut out = Vec::new();
    out.extend_from_slice(&8u32.to_be_bytes());
    out.extend_from_slice(&80877103u32.to_be_bytes());
    out
}

#[test]
fn parse_extracts_user_and_database() {
    let p = payload(&[(b"user", b"alice"), (b"database", b"appdb")]);
    let d = parse_startup(&p).unwrap();
    assert_eq!(d, DbSpec::new("alice".to_string(), "appdb".to_string()));
}

#[test]
fn parse_accepts_any_order_and_ignores_other_keys() {
    let p = payload(&[
        (b"application_name", b"psql"),
        (b"database", b"appdb"),
        (b"options", b"-c x=1"),
        (b"user", b"alice"),
    ]);
    let d = parse_startup(&p).unwrap();
    assert_eq!(d.user, "alice");
    assert_eq!(d.database, "appdb");
}

#[test]
fn parse_stops_once_both_keys_are_seen() {
    // Whatever follows the second recognized pair is never scanned, even
    // an unterminated fragment.
    let mut p = Vec::new();
    p.extend_from_slice(b"user\0bob\0database\0db1\0");
    p.extend_from_slice(b"garbage-without-terminator");
    let d = parse_startup(&p).unwrap();
    assert_eq!(d.user, "bob");
    assert_eq!(d.database, "db1");
}

#[test]
fn parse_keeps_the_last_value_of_a_repeated_key() {
    let p = payload(&[(b"user", b"a"), (b"user", b"b"), (b"database", b"c")]);
    let d = parse_startup(&p).unwrap();
    assert_eq!(d.user, "b");
    assert_eq!(d.database, "c");
}

#[test]
fn parse_missing_database_never_completes() {
    let p = payload(&[(b"user", b"alice")]);
    let r = parse_startup(&p);
    assert_eq!(r, Err(ProxyError::Protocol(ProtocolReason::UnexpectedEnd)));
}

#[test]
fn parse_missing_user_never_completes() {
    let p = payload(&[(b"database", b"appdb")]);
    let r = parse_startup(&p);
    assert_eq!(r, Err(ProxyError::Protocol(ProtocolReason::UnexpectedEnd)));
}

#[test]
fn parse_empty_payload_fails() {
    assert!(parse_startup(&[]).is_err());
}

#[test]
fn parse_ignores_non_utf8_unknown_key() {
    // An unrecognized pair is skipped without being decoded, whatever
    // bytes it holds.
    let p = payload(&[
        (&[0xff, 0xfe][..], &[0x80][..]),
        (b"user", b"alice"),
        (b"database", b"appdb"),
    ]);
    let d = parse_startup(&p).unwrap();
    assert_eq!(d.user, "alice");
    assert_eq!(d.database, "appdb");
}

#[test]
fn parse_rejects_non_utf8_user_value() {
    let p = payload(&[(b"user", &[0xff, 0xfe][..]), (b"database", b"appdb")]);
    let r = parse_startup(&p);
    assert_eq!(r, Err(ProxyError::Protocol(ProtocolReason::InvalidEncoding)));
}

#[test]
fn probe_elicits_refusal_and_does_not_terminate() {
    // The encryption probe is answered, never treated as an error, and the
    // answer is exactly one 0x4E byte.
    let r = handshake_step(&probe_frame()).unwrap();
    assert!(matches!(r, HandshakeAction::RefuseSsl));
    assert_eq!(ssl_refusal_response(), vec![0x4e]);
}

#[test]
fn startup_frame_is_accepted() {
    let r = handshake_step(&startup_frame(&[(b"user", b"alice"), (b"database", b"appdb")]));
    match r.unwrap() {
        HandshakeAction::Accept(d) => {
            assert_eq!(d.user, "alice");
            assert_eq!(d.database, "appdb");
        },
        other => panic!("expected Accept, got {:?}", other),
    }
}

#[test]
fn too_small_frame_is_a_framing_error() {
    let r = handshake_step(&[0, 0, 0, 8, 0x04, 0xd2]);
    assert_eq!(r, Err(ProxyError::Framing));
}

#[test]
fn declared_length_beyond_available_bytes_is_a_framing_error() {
    // A startup frame that declares more bytes than were received never
    // yields a partial parse.
    let body = payload(&[(b"user", b"alice"), (b"database", b"appdb")]);
    let frame = startup_frame_with_payload((8 + body.len() + 50) as u32, &body);
    assert_eq!(handshake_step(&frame), Err(ProxyError::Framing));
}

#[test]
fn unknown_tag_is_a_protocol_error() {
    let mut frame = Vec::new();
    frame.extend_from_slice(&16u32.to_be_bytes());
    frame.extend_from_slice(&12345u32.to_be_bytes());
    frame.extend_from_slice(&[0; 8]);
    assert_eq!(
        handshake_step(&frame),
        Err(ProxyError::Protocol(ProtocolReason::UnknownTag))
    );
}

#[test]
fn backend_accept_byte_continues_and_refusal_fails() {
    assert!(classify_ssl_response(b'S').is_ok());
    assert_eq!(classify_ssl_response(b'N'), Err(ProxyError::TlsUnsupported));
    assert_eq!(classify_ssl_response(0), Err(ProxyError::TlsUnsupported));
}

#[test]
fn scenario_probe_then_startup_then_backend_refuses_tls() {
    // A client probes, is refused encryption, then starts up; the backend
    // declines the proxy's own upgrade and the session fails with the
    // TLS-unsupported error.
    let first = handshake_step(&probe_frame()).unwrap();
    assert!(matches!(first, HandshakeAction::RefuseSsl));
    let second = handshake_step(&startup_frame(&[(b"user", b"alice"), (b"database", b"appdb")]));
    match second.unwrap() {
        HandshakeAction::Accept(d) => {
            assert_eq!(d.user, "alice");
            assert_eq!(d.database, "appdb");
        },
        other => panic!("expected Accept, got {:?}", other),
    }
    assert_eq!(classify_ssl_response(b'N'), Err(ProxyError::TlsUnsupported));
}

#[test]
fn scenario_short_startup_closes_without_contacting_backend() {
    // The framing failure surfaces before any backend work is attempted.
    let frame = startup_frame_with_payload(200, b"user\0bob\0");
    assert_eq!(handshake_step(&frame), Err(ProxyError::Framing));
}

#[test]
fn error_descriptions_are_stable() {
    assert_eq!(ProxyError::TlsUnsupported.describe(), "server does not support TLS");
    assert_eq!(
        ProxyError::Protocol(ProtocolReason::UnexpectedEnd).describe(),
        "unexpected end of stream"
    );
    assert_eq!(
        ProxyError::Protocol(ProtocolReason::UnknownTag).describe(),
        "unknown message tag"
    );
    assert_eq!(ProxyError::Framing.describe(), "short or malformed packet");
    assert_eq!(ProxyError::ConnectionClosed.describe(), "peer closed before handshake completion");
    assert_eq!(ProxyError::Credential.describe(), "credential resolution or signing failed");
    assert_eq!(ProxyError::Connect.describe(), "could not reach the backend");
    assert_eq!(ProxyError::UnexpectedAuthPrompt.describe(), "unexpected auth prompt");
    assert_eq!(ProxyError::RelayIo.describe(), "relay I/O failure");
    assert_eq!(
        ProxyError::Protocol(ProtocolReason::InvalidEncoding).describe(),
        "invalid parameter encoding"
    );
}

//! Byte-level wire codec.
//!
//! Every logical message begins with a 4-byte big-endian length field that
//! counts itself; the two handshake-only messages carry a 4-byte big-endian
//! tag in bytes 4..8. This module holds the frame constants, the big-endian
//! integer codec, the null-terminated string primitives, and the encoders
//! and classifiers for the handshake-phase messages.

use vstd::prelude::*;

use crate::errors::{ProtocolReason, ProxyError};

verus! {

/// Tag of the encryption-upgrade probe frame.
pub const SSL_REQUEST_TAG: u32 = 80877103;

/// Tag of a startup message carrying connection parameters.
pub const STARTUP_TAG: u32 = 196608;

/// Single response byte sent to a client whose encryption probe is declined.
pub const SSL_REFUSED: u8 = 0x4e;

/// Single response byte from a backend that accepts the encryption upgrade.
pub const SSL_ACCEPTED: u8 = 0x53;

/// Tag byte of a backend authentication message (ASCII `R`).
pub const AUTH_MESSAGE_TAG: u8 = 0x52;

/// Authentication code of the cleartext-password prompt.
pub const AUTH_CLEARTEXT_CODE: u32 = 3;

/// Tag byte of a frontend password message (ASCII `p`).
pub const PASSWORD_MESSAGE_TAG: u8 = 0x70;

/// Largest declared frame length the protocol can carry: a length field is
/// a signed 32-bit integer on the wire.
pub const MAX_FRAME_LEN: u64 = 2147483647;

/// The big-endian 32-bit unsigned integer held in `s[i..i + 4]`.
pub open spec fn be_u32_at(s: Seq<u8>, i: int) -> u32 {
    (((s[i] as u32) << 24u32) | ((s[i + 1] as u32) << 16u32) | ((s[i + 2] as u32) << 8u32) | (
    s[i + 3] as u32)) as u32
}

/// The four big-endian bytes of `n`.
pub open spec fn be_bytes_of(n: u32) -> Seq<u8> {
    seq![(n >> 24u32) as u8, (n >> 16u32) as u8, (n >> 8u32) as u8, n as u8]
}

/// Decodes the big-endian 32-bit unsigned integer at `bytes[at..at + 4]`.
pub fn read_be_u32(bytes: &[u8], at: usize) -> (r: u32)
    requires
        at + 4 <= bytes@.len(),
    ensures
        r == be_u32_at(bytes@, at as int),
{
    let b0 = bytes[at] as u32;
    let b1 = bytes[at + 1] as u32;
    let b2 = bytes[at + 2] as u32;
    let b3 = bytes[at + 3] as u32;
    (b0 << 24u32) | (b1 << 16u32) | (b2 << 8u32) | b3
}

/// Appends the four big-endian bytes of `n` to `out`.
pub fn write_be_u32(out: &mut Vec<u8>, n: u32)
    ensures
        final(out)@ == old(out)@ + be_bytes_of(n),
{
    out.push((n >> 24u32) as u8);
    out.push((n >> 16u32) as u8);
    out.push((n >> 8u32) as u8);
    out.push(n as u8);
    assert(final(out)@ =~= old(out)@ + be_bytes_of(n));
}

/// Index of the first zero byte of `s` at or after `i`, if any.
pub open spec fn first_nul(s: Seq<u8>, i: int) -> Option<int>
    decreases s.len() - i,
    when 0 <= i <= s.len()
{
    if i >= s.len() {
        None
    } else if s[i] == 0 {
        Some(i)
    } else {
        first_nul(s, i + 1)
    }
}

/// What `first_nul` returns: the position it names holds the first zero
/// byte at or after `i`, and `None` means there is none.
pub proof fn lemma_first_nul(s: Seq<u8>, i: int)
    requires
        0 <= i <= s.len(),
    ensures
        match first_nul(s, i) {
            Some(j) => i <= j < s.len() && s[j] == 0 && forall|m: int|
                i <= m < j ==> s[m] != 0,
            None => forall|m: int| i <= m < s.len() ==> s[m] != 0,
        },
    decreases s.len() - i,
{
    if i < s.len() && s[i] != 0 {
        lemma_first_nul(s, i + 1);
    }
}

/// Finds the first zero byte of `bytes` at or after `from`.
pub fn find_nul(bytes: &[u8], from: usize) -> (r: Option<usize>)
    requires
        from <= bytes@.len(),
    ensures
        match r {
            Some(j) => first_nul(bytes@, from as int) == Some(j as int),
            None => first_nul(bytes@, from as int) is None,
        },
{
    proof {
        lemma_first_nul(bytes@, from as int);
    }
    let mut i = from;
    while i < bytes.len()
        invariant
            from <= i <= bytes@.len(),
            forall|m: int| from <= m < i ==> bytes@[m] != 0,
            first_nul(bytes@, from as int) == first_nul(bytes@, i as int),
        decreases bytes@.len() - i,
    {
        if bytes[i] == 0 {
            return Some(i);
        }
        i = i + 1;
    }
    None
}

/// A null-terminated string: the bytes followed by the terminator.
pub open spec fn cstr(s: Seq<u8>) -> Seq<u8> {
    s.push(0)
}

/// Appends `s` and a null terminator to `out`.
pub fn push_cstr(out: &mut Vec<u8>, s: &[u8])
    requires
        old(out)@.len() + s@.len() < usize::MAX,
    ensures
        final(out)@ == old(out)@ + cstr(s@),
{
    let mut i: usize = 0;
    while i < s.len()
        invariant
            i <= s@.len(),
            out@.len() == old(out)@.len() + i,
            out@ == old(out)@ + s@.subrange(0, i as int),
        decreases s@.len() - i,
    {
        out.push(s[i]);
        i = i + 1;
        assert(out@ =~= old(out)@ + s@.subrange(0, i as int));
    }
    assert(s@.subrange(0, s@.len() as int) =~= s@);
    out.push(0);
    assert(final(out)@ =~= old(out)@ + cstr(s@));
}

/// Whether `s` holds a zero byte, which no null-terminated value may.
pub fn has_nul(s: &[u8]) -> (r: bool)
    ensures
        r == s@.contains(0u8),
{
    let mut i: usize = 0;
    while i < s.len()
        invariant
            i <= s@.len(),
            forall|m: int| 0 <= m < i ==> s@[m] != 0,
        decreases s@.len() - i,
    {
        if s[i] == 0 {
            assert(s@.contains(0u8));
            return true;
        }
        i = i + 1;
    }
    false
}

/// The 8-byte encryption-upgrade probe frame: declared length 8, then the
/// probe tag.
pub open spec fn ssl_request_frame() -> Seq<u8> {
    be_bytes_of(8) + be_bytes_of(SSL_REQUEST_TAG)
}

/// Encodes the encryption-upgrade probe sent to the backend.
pub fn encode_ssl_request() -> (r: Vec<u8>)
    ensures
        r@ == ssl_request_frame(),
{
    let mut out: Vec<u8> = Vec::new();
    write_be_u32(&mut out, 8);
    write_be_u32(&mut out, SSL_REQUEST_TAG);
    assert(out@ =~= ssl_request_frame());
    out
}

/// The single-byte response refusing a client's encryption probe.
pub fn ssl_refusal_response() -> (r: Vec<u8>)
    ensures
        r@ =~= seq![SSL_REFUSED],
{
    let mut out: Vec<u8> = Vec::new();
    out.push(SSL_REFUSED);
    out
}

/// The bytes of the startup parameter key `client_encoding` (ASCII).
pub open spec fn client_encoding_key() -> Seq<u8> {
    seq![99u8, 108u8, 105u8, 101u8, 110u8, 116u8, 95u8, 101u8, 110u8, 99u8, 111u8, 100u8, 105u8, 110u8, 103u8]
}

/// The bytes of the startup parameter value `UTF8` (ASCII).
pub open spec fn utf8_value() -> Seq<u8> {
    seq![85u8, 84u8, 70u8, 56u8]
}

/// The bytes of the startup parameter key `user` (ASCII).
pub open spec fn user_key() -> Seq<u8> {
    seq![117u8, 115u8, 101u8, 114u8]
}

/// The bytes of the startup parameter key `database` (ASCII).
pub open spec fn database_key() -> Seq<u8> {
    seq![100u8, 97u8, 116u8, 97u8, 98u8, 97u8, 115u8, 101u8]
}

/// The parameter block of the startup message sent to the backend:
/// `client_encoding=UTF8`, `user`, `database`, each key and value
/// null-terminated, closed by one more null.
pub open spec fn startup_payload(user: Seq<u8>, database: Seq<u8>) -> Seq<u8> {
    cstr(client_encoding_key()) + cstr(utf8_value()) + cstr(user_key()) + cstr(user) + cstr(
        database_key(),
    ) + cstr(database) + seq![0u8]
}

/// The full startup frame: declared length (which counts itself and the
/// tag), the startup tag, then the parameter block.
pub open spec fn startup_frame(user: Seq<u8>, database: Seq<u8>) -> Seq<u8> {
    be_bytes_of((8 + startup_payload(user, database).len()) as u32) + be_bytes_of(STARTUP_TAG)
        + startup_payload(user, database)
}

/// Whether a `user`/`database` pair can be framed at all: null-terminated
/// values cannot hold a zero byte, and the declared length is a signed
/// 32-bit integer.
pub open spec fn startup_encodable(user: Seq<u8>, database: Seq<u8>) -> bool {
    &&& !user.contains(0u8)
    &&& !database.contains(0u8)
    &&& 8 + startup_payload(user, database).len() <= MAX_FRAME_LEN
}

/// Encodes the startup message for the backend, with the fixed
/// `client_encoding=UTF8` parameter followed by the user and database.
/// Fails exactly when a value holds an interior zero byte or the frame
/// would exceed the protocol's length field.
pub fn encode_startup_frame(user: &[u8], database: &[u8]) -> (r: Result<Vec<u8>, ProxyError>)
    ensures
        r is Ok <==> startup_encodable(user@, database@),
        r matches Ok(v) ==> v@ == startup_frame(user@, database@),
        r matches Err(e) ==> e == ProxyError::Protocol(ProtocolReason::InvalidEncoding),
{
    if has_nul(user) || has_nul(database) {
        return Err(ProxyError::Protocol(ProtocolReason::InvalidEncoding));
    }
    if user.len() as u64 > MAX_FRAME_LEN || database.len() as u64 > MAX_FRAME_LEN {
        return Err(ProxyError::Protocol(ProtocolReason::InvalidEncoding));
    }
    let payload_len: u64 = 38 + user.len() as u64 + database.len() as u64;
    assert(payload_len == startup_payload(user@, database@).len());
    if 8 + payload_len > MAX_FRAME_LEN {
        return Err(ProxyError::Protocol(ProtocolReason::InvalidEncoding));
    }
    let mut out: Vec<u8> = Vec::new();
    write_be_u32(&mut out, (8 + payload_len) as u32);
    write_be_u32(&mut out, STARTUP_TAG);
    push_cstr(&mut out, &[99, 108, 105, 101, 110, 116, 95, 101, 110, 99, 111, 100, 105, 110, 103]);
    push_cstr(&mut out, &[85, 84, 70, 56]);
    push_cstr(&mut out, &[117, 115, 101, 114]);
    push_cstr(&mut out, user);
    push_cstr(&mut out, &[100, 97, 116, 97, 98, 97, 115, 101]);
    push_cstr(&mut out, database);
    out.push(0);
    assert(out@ =~= startup_frame(user@, database@));
    Ok(out)
}

/// A frontend password message: the `p` tag byte, a declared length that
/// counts itself and the null-terminated password, then the password.
pub open spec fn password_frame(password: Seq<u8>) -> Seq<u8> {
    seq![PASSWORD_MESSAGE_TAG] + be_bytes_of((4 + password.len() + 1) as u32) + cstr(password)
}

/// Whether a password value can be framed as a null-terminated credential.
pub open spec fn password_encodable(password: Seq<u8>) -> bool {
    !password.contains(0u8) && 4 + password.len() + 1 <= MAX_FRAME_LEN
}

/// Encodes the password message carrying the authentication token. Fails
/// exactly when the value holds an interior zero byte or overflows the
/// length field.
pub fn encode_password_message(password: &[u8]) -> (r: Result<Vec<u8>, ProxyError>)
    ensures
        r is Ok <==> password_encodable(password@),
        r matches Ok(v) ==> v@ == password_frame(password@),
        r matches Err(e) ==> e == ProxyError::Protocol(ProtocolReason::InvalidEncoding),
{
    if has_nul(password) {
        return Err(ProxyError::Protocol(ProtocolReason::InvalidEncoding));
    }
    if password.len() as u64 > MAX_FRAME_LEN {
        return Err(ProxyError::Protocol(ProtocolReason::InvalidEncoding));
    }
    let len: u64 = 4 + password.len() as u64 + 1;
    if len > MAX_FRAME_LEN {
        return Err(ProxyError::Protocol(ProtocolReason::InvalidEncoding));
    }
    let mut out: Vec<u8> = Vec::new();
    out.push(PASSWORD_MESSAGE_TAG);
    write_be_u32(&mut out, len as u32);
    push_cstr(&mut out, password);
    assert(out@ =~= password_frame(password@));
    Ok(out)
}

/// Whether a backend frame is the cleartext-password authentication prompt:
/// the `R` tag byte, a declared length of at least 8 fully available, and
/// authentication code 3.
pub open spec fn is_cleartext_auth_prompt(f: Seq<u8>) -> bool {
    &&& f.len() >= 9
    &&& f[0] == AUTH_MESSAGE_TAG
    &&& be_u32_at(f, 1) >= 8
    &&& 1 + be_u32_at(f, 1) <= f.len()
    &&& be_u32_at(f, 5) == AUTH_CLEARTEXT_CODE
}

/// Classifies the backend's first response after the startup message. Only
/// the cleartext-password prompt is accepted; any other frame is the
/// unsupported-mechanism error.
pub fn classify_auth_prompt(frame: &[u8]) -> (r: Result<(), ProxyError>)
    ensures
        r is Ok <==> is_cleartext_auth_prompt(frame@),
        r matches Err(e) ==> e == ProxyError::UnexpectedAuthPrompt,
{
    if frame.len() < 9 {
        return Err(ProxyError::UnexpectedAuthPrompt);
    }
    if frame[0] != AUTH_MESSAGE_TAG {
        return Err(ProxyError::UnexpectedAuthPrompt);
    }
    let declared = read_be_u32(frame, 1);
    if declared < 8 {
        return Err(ProxyError::UnexpectedAuthPrompt);
    }
    if (declared as u64) + 1 > frame.len() as u64 {
        return Err(ProxyError::UnexpectedAuthPrompt);
    }
    let code = read_be_u32(frame, 5);
    if code == AUTH_CLEARTEXT_CODE {
        Ok(())
    } else {
        Err(ProxyError::UnexpectedAuthPrompt)
    }
}

} // verus!

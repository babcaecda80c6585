//! Client-side handshake: interpreting the first frame(s) of a connection.
//!
//! The client's very first frame is either an encryption-upgrade probe
//! (answered with a single refusal byte, after which the next frame is read
//! from the same connection) or a startup message whose payload carries
//! null-terminated key/value parameters. Scanning the parameters stops as
//! soon as both `user` and `database` have been seen; unrecognized keys are
//! skipped.

use vstd::prelude::*;
use vstd::slice::slice_subrange;
use vstd::utf8::{decode_utf8, encode_utf8, valid_utf8};

use crate::errors::{ProtocolReason, ProxyError};
use crate::wire::{
    be_u32_at, database_key, encode_startup_frame, find_nul, first_nul, lemma_first_nul,
    read_be_u32, startup_encodable, startup_frame, user_key, SSL_REQUEST_TAG, STARTUP_TAG,
};

verus! {

/// The user and database a client asked for, extracted from its startup
/// message; valid only once both keys have been observed.
#[derive(Debug, PartialEq, Eq)]
pub struct DbSpec {
    pub user: String,
    pub database: String,
}

impl DbSpec {
    /// Packs an already-extracted user/database pair.
    pub fn new(user: String, database: String) -> (r: DbSpec)
        ensures
            r.user == user,
            r.database == database,
    {
        DbSpec { user, database }
    }

    /// The startup message announcing this request to the backend, with
    /// the fixed `client_encoding=UTF8` parameter before the user and
    /// database. Fails exactly when a value cannot be framed as a
    /// null-terminated string.
    pub fn startup_message(&self) -> (r: Result<Vec<u8>, ProxyError>)
        ensures
            r is Ok <==> startup_encodable(encode_utf8(self.user@), encode_utf8(self.database@)),
            r matches Ok(v) ==> v@ == startup_frame(
                encode_utf8(self.user@),
                encode_utf8(self.database@),
            ),
            r matches Err(e) ==> e == ProxyError::Protocol(ProtocolReason::InvalidEncoding),
    {
        encode_startup_frame(self.user.as_str().as_bytes(), self.database.as_str().as_bytes())
    }
}

/// Outcome of scanning a startup parameter block.
pub enum ScanOutcome {
    /// Both `user` and `database` were seen; scanning stopped there.
    Found { user: Seq<char>, database: Seq<char> },
    /// A null terminator was missing before the payload ended.
    UnexpectedEnd,
    /// A `user` or `database` value was not valid UTF-8.
    NotUtf8,
}

/// The parameter scan, exactly as the proxy performs it: starting at `i`
/// with the values seen so far, read a null-terminated key and value;
/// record the value under `user` or `database`, skip any other pair
/// without decoding it, and stop as soon as both are present.
pub open spec fn scan_startup(
    s: Seq<u8>,
    i: int,
    user: Option<Seq<char>>,
    database: Option<Seq<char>>,
) -> ScanOutcome
    decreases s.len() - i,
    when 0 <= i <= s.len()
    via scan_startup_decreases
{
    if user is Some && database is Some {
        ScanOutcome::Found { user: user->0, database: database->0 }
    } else {
        match first_nul(s, i) {
            Option::None => ScanOutcome::UnexpectedEnd,
            Option::Some(j) => match first_nul(s, j + 1) {
                Option::None => ScanOutcome::UnexpectedEnd,
                Option::Some(k) => {
                    let key = s.subrange(i, j);
                    let value = s.subrange(j + 1, k);
                    if key == user_key() {
                        if valid_utf8(value) {
                            scan_startup(s, k + 1, Some(decode_utf8(value)), database)
                        } else {
                            ScanOutcome::NotUtf8
                        }
                    } else if key == database_key() {
                        if valid_utf8(value) {
                            scan_startup(s, k + 1, user, Some(decode_utf8(value)))
                        } else {
                            ScanOutcome::NotUtf8
                        }
                    } else {
                        scan_startup(s, k + 1, user, database)
                    }
                },
            },
        }
    }
}

#[via_fn]
proof fn scan_startup_decreases(
    s: Seq<u8>,
    i: int,
    user: Option<Seq<char>>,
    database: Option<Seq<char>>,
) {
    lemma_first_nul(s, i);
    if let Some(j) = first_nul(s, i) {
        lemma_first_nul(s, j + 1);
    }
}

/// Whether the parameter block holds, at or after `i`, a complete
/// null-terminated key/value pair whose key is `key`.
pub open spec fn has_key(s: Seq<u8>, i: int, key: Seq<u8>) -> bool
    decreases s.len() - i,
    when 0 <= i <= s.len()
    via has_key_decreases
{
    match first_nul(s, i) {
        Option::None => false,
        Option::Some(j) => match first_nul(s, j + 1) {
            Option::None => false,
            Option::Some(k) => s.subrange(i, j) == key || has_key(s, k + 1, key),
        },
    }
}

#[via_fn]
proof fn has_key_decreases(s: Seq<u8>, i: int, key: Seq<u8>) {
    lemma_first_nul(s, i);
    if let Some(j) = first_nul(s, i) {
        lemma_first_nul(s, j + 1);
    }
}

/// A scan that completes while still missing `user` must pass a `user`
/// pair on the way, and likewise for `database`.
pub proof fn lemma_found_requires_keys(
    s: Seq<u8>,
    i: int,
    user: Option<Seq<char>>,
    database: Option<Seq<char>>,
)
    requires
        0 <= i <= s.len(),
        scan_startup(s, i, user, database) is Found,
    ensures
        user is None ==> has_key(s, i, user_key()),
        database is None ==> has_key(s, i, database_key()),
    decreases s.len() - i,
{
    if user is Some && database is Some {
    } else {
        lemma_first_nul(s, i);
        let j = first_nul(s, i)->0;
        lemma_first_nul(s, j + 1);
        let k = first_nul(s, j + 1)->0;
        let key = s.subrange(i, j);
        let value = s.subrange(j + 1, k);
        if key == user_key() {
            lemma_found_requires_keys(s, k + 1, Some(decode_utf8(value)), database);
        } else if key == database_key() {
            lemma_found_requires_keys(s, k + 1, user, Some(decode_utf8(value)));
        } else {
            lemma_found_requires_keys(s, k + 1, user, database);
        }
    }
}

/// A startup parameter block that holds no `user` pair, or no `database`
/// pair, never yields a request: parsing cannot invent a missing field.
pub proof fn lemma_missing_key_never_found(s: Seq<u8>)
    requires
        !has_key(s, 0, user_key()) || !has_key(s, 0, database_key()),
    ensures
        !(scan_startup(s, 0, None, None) is Found),
{
    if scan_startup(s, 0, None, None) is Found {
        lemma_found_requires_keys(s, 0, None, None);
    }
}

/// The byte encoding of a list of key/value pairs: each key and value
/// null-terminated, in order.
pub open spec fn encode_pairs(ps: Seq<(Seq<u8>, Seq<u8>)>) -> Seq<u8>
    decreases ps.len(),
{
    if ps.len() == 0 {
        Seq::empty()
    } else {
        crate::wire::cstr(ps[0].0) + crate::wire::cstr(ps[0].1) + encode_pairs(ps.drop_first())
    }
}

/// Whether every key and value of a pair list can be null-terminated.
pub open spec fn pairs_wf(ps: Seq<(Seq<u8>, Seq<u8>)>) -> bool {
    forall|m: int|
        0 <= m < ps.len() ==> !(#[trigger] ps[m]).0.contains(0u8) && !ps[m].1.contains(0u8)
}

/// The scan, replayed over a pair list instead of bytes: record `user` and
/// `database` values, skip other pairs, stop as soon as both are present.
pub open spec fn walk_pairs(
    ps: Seq<(Seq<u8>, Seq<u8>)>,
    user: Option<Seq<char>>,
    database: Option<Seq<char>>,
) -> ScanOutcome
    decreases ps.len(),
{
    if user is Some && database is Some {
        ScanOutcome::Found { user: user->0, database: database->0 }
    } else if ps.len() == 0 {
        ScanOutcome::UnexpectedEnd
    } else {
        let key = ps[0].0;
        let value = ps[0].1;
        if key == user_key() {
            if valid_utf8(value) {
                walk_pairs(ps.drop_first(), Some(decode_utf8(value)), database)
            } else {
                ScanOutcome::NotUtf8
            }
        } else if key == database_key() {
            if valid_utf8(value) {
                walk_pairs(ps.drop_first(), user, Some(decode_utf8(value)))
            } else {
                ScanOutcome::NotUtf8
            }
        } else {
            walk_pairs(ps.drop_first(), user, database)
        }
    }
}

/// `first_nul` finds exactly the position whose byte is zero and before
/// which no byte is.
proof fn lemma_first_nul_of(s: Seq<u8>, i: int, j: int)
    requires
        0 <= i <= j < s.len(),
        s[j] == 0,
        forall|m: int| i <= m < j ==> s[m] != 0,
    ensures
        first_nul(s, i) == Some(j),
    decreases j - i,
{
    if i < j {
        lemma_first_nul_of(s, i + 1, j);
    }
}

/// Scanning bytes that encode a pair list is the same as walking the pair
/// list: the byte-level scanner neither invents nor loses pairs.
pub proof fn lemma_scan_encoded_pairs(
    s: Seq<u8>,
    i: int,
    ps: Seq<(Seq<u8>, Seq<u8>)>,
    user: Option<Seq<char>>,
    database: Option<Seq<char>>,
)
    requires
        0 <= i <= s.len(),
        s.skip(i) == encode_pairs(ps),
        pairs_wf(ps),
    ensures
        scan_startup(s, i, user, database) == walk_pairs(ps, user, database),
    decreases ps.len(),
{
    if user is Some && database is Some {
    } else if ps.len() == 0 {
        assert(s.len() - i == encode_pairs(ps).len());
        lemma_first_nul(s, i);
    } else {
        let key = ps[0].0;
        let value = ps[0].1;
        let rest = encode_pairs(ps.drop_first());
        let j = i + key.len();
        let k = j + 1 + value.len();
        assert(s.len() - i == encode_pairs(ps).len());
        assert forall|m: int| 0 <= m < s.len() - i implies s[i + m] == encode_pairs(ps)[m] by {
            assert(s.skip(i)[m] == s[i + m]);
        }
        assert(forall|m: int| i <= m < j ==> s[m] != 0) by {
            assert forall|m: int| i <= m < j implies s[m] != 0 by {
                assert(s[m] == encode_pairs(ps)[m - i]);
                assert(encode_pairs(ps)[m - i] == key[m - i]);
                assert(key.contains(0u8) <==> exists|q: int| 0 <= q < key.len() && key[q] == 0u8);
            }
        }
        assert(s[j] == encode_pairs(ps)[j - i]);
        assert(s[j] == 0);
        lemma_first_nul_of(s, i, j);
        assert(forall|m: int| j + 1 <= m < k ==> s[m] != 0) by {
            assert forall|m: int| j + 1 <= m < k implies s[m] != 0 by {
                assert(s[m] == encode_pairs(ps)[m - i]);
                assert(encode_pairs(ps)[m - i] == value[m - i - (j + 1 - i)]);
                assert(value.contains(0u8) <==> exists|q: int|
                    0 <= q < value.len() && value[q] == 0u8);
            }
        }
        assert(s[k] == encode_pairs(ps)[k - i]);
        assert(s[k] == 0);
        lemma_first_nul_of(s, j + 1, k);
        assert(s.subrange(i, j) =~= key);
        assert(s.subrange(j + 1, k) =~= value) by {
            assert forall|m: int| 0 <= m < value.len() implies s.subrange(j + 1, k)[m]
                == value[m] by {
                assert(s.subrange(j + 1, k)[m] == s[j + 1 + m]);
                assert(s[j + 1 + m] == encode_pairs(ps)[j + 1 + m - i]);
                assert(encode_pairs(ps)[j + 1 + m - i] == value[m]);
            }
        }
        assert(s.skip(k + 1) =~= rest) by {
            assert forall|m: int| 0 <= m < s.len() - (k + 1) implies s.skip(k + 1)[m] == rest[m] by {
                assert(s.skip(k + 1)[m] == s[k + 1 + m]);
                assert(s[k + 1 + m] == encode_pairs(ps)[k + 1 + m - i]);
                assert(encode_pairs(ps)[k + 1 + m - i] == rest[m]);
            }
        }
        if key == user_key() {
            if valid_utf8(value) {
                lemma_scan_encoded_pairs(
                    s,
                    k + 1,
                    ps.drop_first(),
                    Some(decode_utf8(value)),
                    database,
                );
            }
        } else if key == database_key() {
            if valid_utf8(value) {
                lemma_scan_encoded_pairs(
                    s,
                    k + 1,
                    ps.drop_first(),
                    user,
                    Some(decode_utf8(value)),
                );
            }
        } else {
            lemma_scan_encoded_pairs(s, k + 1, ps.drop_first(), user, database);
        }
    }
}

/// Walking a pair list whose remaining `user` pair (when one is still
/// missing) and remaining `database` pair are unique completes, and yields
/// exactly the values of those pairs.
proof fn lemma_walk_finds(
    ps: Seq<(Seq<u8>, Seq<u8>)>,
    user: Option<Seq<char>>,
    database: Option<Seq<char>>,
    u_idx: int,
    d_idx: int,
)
    requires
        user is None ==> 0 <= u_idx < ps.len() && ps[u_idx].0 == user_key() && valid_utf8(
            ps[u_idx].1,
        ) && forall|m: int|
            0 <= m < ps.len() && m != u_idx ==> (#[trigger] ps[m]).0 != user_key(),
        user is Some ==> forall|m: int| 0 <= m < ps.len() ==> (#[trigger] ps[m]).0 != user_key(),
        database is None ==> 0 <= d_idx < ps.len() && ps[d_idx].0 == database_key() && valid_utf8(
            ps[d_idx].1,
        ) && forall|m: int|
            0 <= m < ps.len() && m != d_idx ==> (#[trigger] ps[m]).0 != database_key(),
        database is Some ==> forall|m: int|
            0 <= m < ps.len() ==> (#[trigger] ps[m]).0 != database_key(),
    ensures
        walk_pairs(ps, user, database) == (ScanOutcome::Found {
            user: if user is Some {
                user->0
            } else {
                decode_utf8(ps[u_idx].1)
            },
            database: if database is Some {
                database->0
            } else {
                decode_utf8(ps[d_idx].1)
            },
        }),
    decreases ps.len(),
{
    if user is Some && database is Some {
    } else {
        let key = ps[0].0;
        let rest = ps.drop_first();
        assert(forall|m: int| 0 <= m < rest.len() ==> (#[trigger] rest[m]) == ps[m + 1]);
        if key == user_key() {
            lemma_walk_finds(rest, Some(decode_utf8(ps[0].1)), database, u_idx - 1, d_idx - 1);
        } else if key == database_key() {
            lemma_walk_finds(rest, user, Some(decode_utf8(ps[0].1)), u_idx - 1, d_idx - 1);
        } else {
            lemma_walk_finds(rest, user, database, u_idx - 1, d_idx - 1);
        }
    }
}

/// For every startup parameter block that encodes a `user` pair and a
/// `database` pair — in any order, with arbitrary other pairs interleaved
/// — the scan succeeds and extracts exactly that pair of values.
pub proof fn lemma_startup_extracts_exact_pair(
    ps: Seq<(Seq<u8>, Seq<u8>)>,
    u_idx: int,
    d_idx: int,
)
    requires
        pairs_wf(ps),
        0 <= u_idx < ps.len(),
        ps[u_idx].0 == user_key(),
        valid_utf8(ps[u_idx].1),
        0 <= d_idx < ps.len(),
        ps[d_idx].0 == database_key(),
        valid_utf8(ps[d_idx].1),
        forall|m: int| 0 <= m < ps.len() && m != u_idx ==> (#[trigger] ps[m]).0 != user_key(),
        forall|m: int| 0 <= m < ps.len() && m != d_idx ==> (#[trigger] ps[m]).0 != database_key(),
    ensures
        scan_startup(encode_pairs(ps), 0, None, None) == (ScanOutcome::Found {
            user: decode_utf8(ps[u_idx].1),
            database: decode_utf8(ps[d_idx].1),
        }),
{
    assert(encode_pairs(ps).skip(0) =~= encode_pairs(ps));
    lemma_scan_encoded_pairs(encode_pairs(ps), 0, ps, None, None);
    lemma_walk_finds(ps, None, None, u_idx, d_idx);
}

/// Relies on `std::str::from_utf8`: it succeeds exactly on valid UTF-8
/// input and yields the text those bytes encode.
#[verifier::external_body]
fn utf8_to_string(bytes: &[u8]) -> (r: Option<String>)
    ensures
        r is Some <==> valid_utf8(bytes@),
        r matches Some(s) ==> s@ == decode_utf8(bytes@),
{
    std::str::from_utf8(bytes).ok().map(|s| s.to_owned())
}

/// Whether two byte slices hold the same bytes.
fn bytes_eq(a: &[u8], b: &[u8]) -> (r: bool)
    ensures
        r <==> a@ == b@,
{
    if a.len() != b.len() {
        assert(a@ != b@);
        return false;
    }
    let mut i: usize = 0;
    while i < a.len()
        invariant
            a@.len() == b@.len(),
            i <= a@.len(),
            forall|m: int| 0 <= m < i ==> a@[m] == b@[m],
        decreases a@.len() - i,
    {
        if a[i] != b[i] {
            assert(a@ != b@);
            return false;
        }
        i = i + 1;
    }
    assert(a@ =~= b@);
    true
}

/// Extracts the requested user and database from a startup parameter
/// block. The result is exactly what the scan yields: success only when
/// both keys were seen, the missing-terminator error when the payload ends
/// early, and the encoding error when a `user` or `database` value is not
/// valid UTF-8. Unrecognized pairs are skipped without being decoded.
pub fn parse_startup(src: &[u8]) -> (r: Result<DbSpec, ProxyError>)
    ensures
        match scan_startup(src@, 0, None, None) {
            ScanOutcome::Found { user, database } => r matches Ok(d) && d.user@ == user
                && d.database@ == database,
            ScanOutcome::UnexpectedEnd => r == Err::<DbSpec, ProxyError>(
                ProxyError::Protocol(ProtocolReason::UnexpectedEnd),
            ),
            ScanOutcome::NotUtf8 => r == Err::<DbSpec, ProxyError>(
                ProxyError::Protocol(ProtocolReason::InvalidEncoding),
            ),
        },
{
    let n = src.len();
    let mut user: Option<String> = None;
    let mut database: Option<String> = None;
    let mut idx: usize = 0;
    while user.is_none() || database.is_none()
        invariant
            n == src@.len(),
            idx <= src@.len(),
            scan_startup(src@, 0, None, None) == scan_startup(
                src@,
                idx as int,
                user.deep_view(),
                database.deep_view(),
            ),
        decreases src@.len() - idx,
    {
        proof {
            lemma_first_nul(src@, idx as int);
        }
        let j = match find_nul(src, idx) {
            Some(j) => j,
            None => {
                return Err(ProxyError::Protocol(ProtocolReason::UnexpectedEnd));
            },
        };
        proof {
            lemma_first_nul(src@, j + 1);
        }
        let k = match find_nul(src, j + 1) {
            Some(k) => k,
            None => {
                return Err(ProxyError::Protocol(ProtocolReason::UnexpectedEnd));
            },
        };
        let key = slice_subrange(src, idx, j);
        let value = slice_subrange(src, j + 1, k);
        if bytes_eq(key, &[117, 115, 101, 114]) {
            match utf8_to_string(value) {
                Some(s) => {
                    user = Some(s);
                },
                None => {
                    return Err(ProxyError::Protocol(ProtocolReason::InvalidEncoding));
                },
            }
        } else if bytes_eq(key, &[100, 97, 116, 97, 98, 97, 115, 101]) {
            match utf8_to_string(value) {
                Some(s) => {
                    database = Some(s);
                },
                None => {
                    return Err(ProxyError::Protocol(ProtocolReason::InvalidEncoding));
                },
            }
        }
        idx = k + 1;
    }
    let u = match user {
        Some(u) => u,
        None => {
            return Err(ProxyError::Protocol(ProtocolReason::UnexpectedEnd));
        },
    };
    let d = match database {
        Some(d) => d,
        None => {
            return Err(ProxyError::Protocol(ProtocolReason::UnexpectedEnd));
        },
    };
    Ok(DbSpec::new(u, d))
}

/// What the session must do with one client frame during the handshake.
#[derive(Debug, PartialEq, Eq)]
pub enum HandshakeAction {
    /// Answer the encryption probe with the single refusal byte and read
    /// the next frame from the same connection.
    RefuseSsl,
    /// The startup message was complete: connect to the backend for this
    /// request.
    Accept(DbSpec),
}

/// Whether a frame is the fixed 8-byte encryption-upgrade probe.
pub open spec fn is_ssl_probe(f: Seq<u8>) -> bool {
    f.len() >= 8 && be_u32_at(f, 0) == 8 && be_u32_at(f, 4) == SSL_REQUEST_TAG
}

/// One step of the handshake state machine, applied to each client frame
/// in turn until a startup message is accepted or the session fails:
/// frames under 8 bytes are malformed; the probe elicits the refusal
/// response without terminating the session; a startup frame must declare
/// no more bytes than were received and its parameters are scanned; any
/// other tag is a protocol error.
pub fn handshake_step(frame: &[u8]) -> (r: Result<HandshakeAction, ProxyError>)
    ensures
        frame@.len() < 8 ==> r == Err::<HandshakeAction, ProxyError>(ProxyError::Framing),
        is_ssl_probe(frame@) ==> r == Ok::<HandshakeAction, ProxyError>(
            HandshakeAction::RefuseSsl,
        ),
        frame@.len() >= 8 && !is_ssl_probe(frame@) && be_u32_at(frame@, 4) == STARTUP_TAG
            && frame@.len() < be_u32_at(frame@, 0) ==> r == Err::<HandshakeAction, ProxyError>(
            ProxyError::Framing,
        ),
        frame@.len() >= 8 && !is_ssl_probe(frame@) && be_u32_at(frame@, 4) == STARTUP_TAG
            && frame@.len() >= be_u32_at(frame@, 0) ==> match scan_startup(
            frame@.skip(8),
            0,
            None,
            None,
        ) {
            ScanOutcome::Found { user, database } => r matches Ok(
                HandshakeAction::Accept(d),
            ) && d.user@ == user && d.database@ == database,
            ScanOutcome::UnexpectedEnd => r == Err::<HandshakeAction, ProxyError>(
                ProxyError::Protocol(ProtocolReason::UnexpectedEnd),
            ),
            ScanOutcome::NotUtf8 => r == Err::<HandshakeAction, ProxyError>(
                ProxyError::Protocol(ProtocolReason::InvalidEncoding),
            ),
        },
        frame@.len() >= 8 && !is_ssl_probe(frame@) && be_u32_at(frame@, 4) != STARTUP_TAG ==> r
            == Err::<HandshakeAction, ProxyError>(
            ProxyError::Protocol(ProtocolReason::UnknownTag),
        ),
{
    if frame.len() < 8 {
        return Err(ProxyError::Framing);
    }
    let declared = read_be_u32(frame, 0);
    let tag = read_be_u32(frame, 4);
    if declared == 8 && tag == SSL_REQUEST_TAG {
        return Ok(HandshakeAction::RefuseSsl);
    }
    if tag == STARTUP_TAG {
        if (frame.len() as u64) < declared as u64 {
            return Err(ProxyError::Framing);
        }
        let payload = slice_subrange(frame, 8, frame.len());
        assert(payload@ =~= frame@.skip(8));
        match parse_startup(payload) {
            Ok(d) => Ok(HandshakeAction::Accept(d)),
            Err(e) => Err(e),
        }
    } else {
        Err(ProxyError::Protocol(ProtocolReason::UnknownTag))
    }
}

/// Classifies the backend's one-byte answer to the proxy's encryption
/// probe: the accept byte continues the pipeline, anything else is the
/// unsupported-encryption error. There is no plaintext fallback.
pub fn classify_ssl_response(b: u8) -> (r: Result<(), ProxyError>)
    ensures
        r is Ok <==> b == crate::wire::SSL_ACCEPTED,
        r matches Err(e) ==> e == ProxyError::TlsUnsupported,
{
    if b == crate::wire::SSL_ACCEPTED {
        Ok(())
    } else {
        Err(ProxyError::TlsUnsupported)
    }
}

} // verus!

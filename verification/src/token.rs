//! Credential token generation.
//!
//! A session never learns a database password: it derives a short-lived
//! signed token for the requested user. The token is a presigned HTTPS GET
//! of the database authorization endpoint, scoped to the signing region,
//! with a fixed 900-second expiry and the signature carried in the query
//! string; the signed URL minus its `https://` prefix is the token, used as
//! a cleartext password for one authentication exchange.

use vstd::prelude::*;
use vstd::string::{StrSliceExecFns, StringExecFns};

use crate::backend_config::{dec_rep, u16_to_string};
use crate::errors::ProxyError;

use aws_credential_types::Credentials;
use aws_sigv4::http_request::{sign, SignableBody, SignableRequest, SignatureLocation,
    SigningSettings};
use aws_sigv4::sign::v4::SigningParams;
use std::iter::empty;
use std::time::{Duration, UNIX_EPOCH};
use url::Url;

verus! {

/// How long a signed token stays valid, in seconds.
pub const TOKEN_EXPIRY_SECS: u64 = 900;

/// The last second of 9999-12-31: the latest signing instant whose date
/// the signer's calendar arithmetic can format.
pub const MAX_SIGNING_TIME_SECS: u64 = 253402300799;

/// Ambient cloud credentials, resolved by the caller's credential chain
/// and handed over as plain values.
#[derive(Clone, Debug)]
pub struct AwsCredentials {
    pub access_key_id: String,
    pub secret_access_key: String,
    pub session_token: Option<String>,
}

/// The URL that is signed for a connection attempt: the authentication
/// endpoint with the fixed authorization action and the requested user.
pub open spec fn presign_url_spec(host: Seq<char>, port: nat, user: Seq<char>) -> Seq<char> {
    "https://"@ + host + seq![':'] + dec_rep(port) + "/?Action=connect&DBUser="@ + user
}

/// Builds the URL to sign for `(host, port, user)`.
pub fn presign_url(host: &str, port: u16, user: &str) -> (r: String)
    ensures
        r@ == presign_url_spec(host@, port as nat, user@),
{
    proof {
        reveal_strlit("https://");
        reveal_strlit(":");
        reveal_strlit("/?Action=connect&DBUser=");
    }
    let mut s = String::from_str("https://");
    s.append(host);
    s.append(":");
    let port_s = u16_to_string(port);
    s.append(port_s.as_str());
    s.append("/?Action=connect&DBUser=");
    s.append(user);
    assert(s@ =~= presign_url_spec(host@, port as nat, user@));
    s
}

/// Whether `s` begins with the literal `https://` prefix.
pub open spec fn has_https_prefix(s: Seq<char>) -> bool {
    s.len() >= 8 && s.subrange(0, 8) == "https://"@
}

/// Checks for the `https://` prefix character by character.
fn check_https_prefix(s: &str) -> (r: bool)
    ensures
        r == has_https_prefix(s@),
{
    proof {
        reveal_strlit("https://");
    }
    let lit = "https://";
    let n = s.unicode_len();
    if n < 8 {
        return false;
    }
    let mut i: usize = 0;
    while i < 8
        invariant
            i <= 8,
            s@.len() >= 8,
            lit@ == "https://"@,
            lit@.len() == 8,
            forall|m: int| 0 <= m < i ==> s@[m] == lit@[m],
        decreases 8 - i,
    {
        if s.get_char(i) != lit.get_char(i) {
            assert(s@.subrange(0, 8)[i as int] != "https://"@[i as int]);
            return false;
        }
        i = i + 1;
    }
    assert(s@.subrange(0, 8) =~= "https://"@);
    true
}

/// The views of a list of string pairs.
pub open spec fn pair_views(ps: Seq<(String, String)>) -> Seq<(Seq<char>, Seq<char>)> {
    ps.map_values(|p: (String, String)| (p.0@, p.1@))
}

/// What the url crate's parse-and-serialize normalization makes of `url`:
/// `None` exactly when the string does not parse as a URL. A function of
/// the string alone.
pub uninterp spec fn url_normalize_result(url: Seq<char>) -> Option<Seq<char>>;

/// Relies on `url::Url::parse` and the `Url` serialization: whether the
/// string parses, and the normalized form when it does, are deterministic
/// functions of the string; neither call panics.
#[verifier::external_body]
fn normalize_url(url_s: &str) -> (r: Option<String>)
    ensures
        r matches Some(s) ==> url_normalize_result(url_s@) == Some(s@),
        r is None ==> url_normalize_result(url_s@) is None,
{
    Some(Url::parse(url_s).ok()?.to_string())
}

/// What the request-signing scheme yields for the given inputs: the query
/// parameters carrying the signature, or `None` when signing fails. A
/// function of its arguments alone (the signature is a deterministic
/// digest of the canonical request, the credentials, the scope, and the
/// signing time, and every failure condition depends on the same inputs).
pub uninterp spec fn sigv4_sign_result(
    url: Seq<char>,
    region: Seq<char>,
    service: Seq<char>,
    access_key_id: Seq<char>,
    secret_access_key: Seq<char>,
    session_token: Option<Seq<char>>,
    time_unix_secs: u64,
    expires_secs: u64,
) -> Option<Seq<(Seq<char>, Seq<char>)>>;

/// Relies on aws-sigv4's `sign` over a `SignableRequest` for a GET of
/// `url_s` with an empty body, with v4 `SigningParams` built from the
/// given credentials, region, service, time, and query-parameter expiry:
/// the signing instructions, and whether signing fails, are deterministic
/// functions of exactly these arguments. The time bound keeps the
/// formatted signing date inside the calendar the signer supports, and the
/// scheme-plus-authority prefix keeps its host-header insertion total:
/// beyond either, the signer aborts instead of returning an error.
#[verifier::external_body]
fn sigv4_sign_query(
    url_s: &str,
    region: &str,
    service: &str,
    akid: &str,
    secret: &str,
    session: Option<String>,
    time_unix_secs: u64,
    expires_secs: u64,
) -> (r: Option<Vec<(String, String)>>)
    requires
        time_unix_secs <= MAX_SIGNING_TIME_SECS,
        has_https_prefix(url_s@),
    ensures
        r matches Some(ps) ==> sigv4_sign_result(
            url_s@,
            region@,
            service@,
            akid@,
            secret@,
            session.deep_view(),
            time_unix_secs,
            expires_secs,
        ) == Some(pair_views(ps@)),
        r is None ==> sigv4_sign_result(
            url_s@,
            region@,
            service@,
            akid@,
            secret@,
            session.deep_view(),
            time_unix_secs,
            expires_secs,
        ) is None,
{
    let identity = Credentials::new(akid, secret, session, None, "proxy").into();
    let mut st = SigningSettings::default();
    st.expires_in = Some(Duration::from_secs(expires_secs));
    st.signature_location = SignatureLocation::QueryParams;
    let p = SigningParams::builder().identity(&identity).region(region).name(service).time(
        UNIX_EPOCH.checked_add(Duration::from_secs(time_unix_secs))?,
    ).settings(st).build().ok()?;
    let req = SignableRequest::new("GET", url_s, empty(), SignableBody::Bytes(&[])).ok()?;
    Some(sign(req, &p.into()).ok()?.output().params().iter().map(
        |q| (q.0.to_string(), q.1.to_string()),
    ).collect())
}

/// The serialization of `url` with the given pairs appended to its query
/// string, or `None` when `url` does not parse. A function of its
/// arguments alone.
pub uninterp spec fn url_append_result(url: Seq<char>, pairs: Seq<(Seq<char>, Seq<char>)>) -> Option<
    Seq<char>,
>;

/// Relies on `url::Url`: parse `url_s`, append each pair to the query
/// string, and serialize; the result is a deterministic function of the
/// URL and the pairs, and no call panics.
#[verifier::external_body]
fn append_query_pairs(url_s: &str, pairs: &Vec<(String, String)>) -> (r: Option<String>)
    ensures
        r matches Some(s) ==> url_append_result(url_s@, pair_views(pairs@)) == Some(s@),
        r is None ==> url_append_result(url_s@, pair_views(pairs@)) is None,
{
    let mut url = Url::parse(url_s).ok()?;
    for (name, value) in pairs {
        url.query_pairs_mut().append_pair(name, value);
    }
    Some(url.to_string())
}

/// The full presigned URL for the given signing inputs, exactly as the
/// pipeline computes it: normalize the URL, require the `https://` prefix
/// of the normalized form, sign it, and append the signing parameters to
/// it. `None` exactly when one of those steps fails.
pub open spec fn sigv4_presigned_result(
    url: Seq<char>,
    region: Seq<char>,
    service: Seq<char>,
    access_key_id: Seq<char>,
    secret_access_key: Seq<char>,
    session_token: Option<Seq<char>>,
    time_unix_secs: u64,
    expires_secs: u64,
) -> Option<Seq<char>> {
    match url_normalize_result(url) {
        Some(n) => if has_https_prefix(n) {
            match sigv4_sign_result(
                n,
                region,
                service,
                access_key_id,
                secret_access_key,
                session_token,
                time_unix_secs,
                expires_secs,
            ) {
                Some(ps) => url_append_result(n, ps),
                None => None,
            }
        } else {
            None
        },
        None => None,
    }
}

/// Normalizes `url_s`, signs the normalized form, and serializes the
/// presigned URL; the signature is computed over exactly the string that
/// the result extends.
fn sigv4_presign_url(
    url_s: &str,
    region: &str,
    service: &str,
    creds: &AwsCredentials,
    time_unix_secs: u64,
    expires_secs: u64,
) -> (r: Option<String>)
    requires
        time_unix_secs <= MAX_SIGNING_TIME_SECS,
    ensures
        r matches Some(s) ==> sigv4_presigned_result(
            url_s@,
            region@,
            service@,
            creds.access_key_id@,
            creds.secret_access_key@,
            creds.session_token.deep_view(),
            time_unix_secs,
            expires_secs,
        ) == Some(s@),
        r is None ==> sigv4_presigned_result(
            url_s@,
            region@,
            service@,
            creds.access_key_id@,
            creds.secret_access_key@,
            creds.session_token.deep_view(),
            time_unix_secs,
            expires_secs,
        ) is None,
{
    let normalized = match normalize_url(url_s) {
        Some(n) => n,
        None => {
            return None;
        },
    };
    if !check_https_prefix(normalized.as_str()) {
        return None;
    }
    let session: Option<String> = match &creds.session_token {
        Some(s) => Some(s.clone()),
        None => None,
    };
    let pairs = match sigv4_sign_query(
        normalized.as_str(),
        region,
        service,
        creds.access_key_id.as_str(),
        creds.secret_access_key.as_str(),
        session,
        time_unix_secs,
        expires_secs,
    ) {
        Some(p) => p,
        None => {
            return None;
        },
    };
    append_query_pairs(normalized.as_str(), &pairs)
}

/// Derives the authentication token for one connection attempt: signs the
/// authorization URL for `(host, port, user)` scoped to `region` at the
/// given wall-clock time with the fixed expiry, and returns the signed URL
/// with its `https://` prefix removed. Succeeds exactly when the signing
/// pipeline yields a presigned URL carrying that prefix; every failure is
/// the credential error. Generated fresh per attempt, never cached.
pub fn generate_token(
    host: &str,
    port: u16,
    region: &str,
    user: &str,
    credentials: &AwsCredentials,
    time_unix_secs: u64,
) -> (r: Result<String, ProxyError>)
    requires
        time_unix_secs <= MAX_SIGNING_TIME_SECS,
    ensures
        ({
            let signed_opt = sigv4_presigned_result(
                presign_url_spec(host@, port as nat, user@),
                region@,
                "rds-db"@,
                credentials.access_key_id@,
                credentials.secret_access_key@,
                credentials.session_token.deep_view(),
                time_unix_secs,
                TOKEN_EXPIRY_SECS,
            );
            &&& (r is Ok <==> (signed_opt matches Some(s) && has_https_prefix(s)))
            &&& (r matches Ok(t) ==> signed_opt matches Some(s) && t@ == s.subrange(
                8,
                s.len() as int,
            ))
            &&& (r matches Err(e) ==> e == ProxyError::Credential)
        }),
{
    let url = presign_url(host, port, user);
    let signed = match sigv4_presign_url(
        url.as_str(),
        region,
        "rds-db",
        credentials,
        time_unix_secs,
        TOKEN_EXPIRY_SECS,
    ) {
        Some(s) => s,
        None => {
            return Err(ProxyError::Credential);
        },
    };
    if !check_https_prefix(signed.as_str()) {
        return Err(ProxyError::Credential);
    }
    let len = signed.as_str().unicode_len();
    let token = signed.as_str().substring_char(8, len).to_owned();
    Ok(token)
}

} // verus!

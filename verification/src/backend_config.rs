//! Backend configuration: where to connect and whom to authenticate
//! against.
//!
//! The connection target may differ from the authentication target: when an
//! upstream proxy endpoint is configured, TCP connections go there, while
//! token signing always targets the true database endpoint.

use vstd::prelude::*;
use vstd::string::StringExecFns;

verus! {

/// The decimal digit character for a value below ten.
pub open spec fn dec_digit(d: nat) -> char {
    ((48 + d) as u8) as char
}

/// The decimal representation of `n`, most significant digit first, with
/// no leading zeros (a single `0` for zero).
pub open spec fn dec_rep(n: nat) -> Seq<char>
    decreases n,
{
    if n < 10 {
        seq![dec_digit(n)]
    } else {
        dec_rep(n / 10).push(dec_digit(n % 10))
    }
}

/// Appends one decimal digit character to `s`.
fn push_digit(s: &mut String, d: u16)
    requires
        d < 10,
    ensures
        final(s)@ == old(s)@ + seq![dec_digit(d as nat)],
{
    proof {
        reveal_strlit("0");
        reveal_strlit("1");
        reveal_strlit("2");
        reveal_strlit("3");
        reveal_strlit("4");
        reveal_strlit("5");
        reveal_strlit("6");
        reveal_strlit("7");
        reveal_strlit("8");
        reveal_strlit("9");
    }
    match d {
        0 => s.append("0"),
        1 => s.append("1"),
        2 => s.append("2"),
        3 => s.append("3"),
        4 => s.append("4"),
        5 => s.append("5"),
        6 => s.append("6"),
        7 => s.append("7"),
        8 => s.append("8"),
        _ => s.append("9"),
    }
    assert(final(s)@ =~= old(s)@ + seq![dec_digit(d as nat)]);
}

/// Appends the decimal representation of `n` to `s`.
fn push_dec(s: &mut String, n: u16)
    ensures
        final(s)@ == old(s)@ + dec_rep(n as nat),
    decreases n,
{
    if n < 10 {
        push_digit(s, n);
    } else {
        push_dec(s, n / 10);
        push_digit(s, n % 10);
        assert(final(s)@ =~= old(s)@ + dec_rep(n as nat));
    }
}

/// Renders `n` in decimal.
pub fn u16_to_string(n: u16) -> (r: String)
    ensures
        r@ == dec_rep(n as nat),
{
    let mut s = String::new();
    push_dec(&mut s, n);
    assert(s@ =~= dec_rep(n as nat));
    s
}

/// A TCP destination: hostname and port. Immutable once constructed.
#[derive(Clone, Debug, PartialEq, Eq)]
pub struct Addr {
    pub hostname: String,
    pub port: u16,
}

impl Addr {
    /// The `hostname:port` form that a TCP connect call takes.
    pub fn connect_str(&self) -> (r: String)
        ensures
            r@ == self.hostname@ + seq![':'] + dec_rep(self.port as nat),
    {
        proof {
            reveal_strlit(":");
        }
        let mut s = self.hostname.clone();
        s.append(":");
        push_dec(&mut s, self.port);
        assert(s@ =~= self.hostname@ + seq![':'] + dec_rep(self.port as nat));
        s
    }
}

/// Resolved configuration for the backend leg, shared read-only across
/// sessions: the authentication endpoint, the signing region, and an
/// optional upstream proxy endpoint to connect through.
#[derive(Clone, Debug, PartialEq, Eq)]
pub struct BackendConfig {
    pub endpoint: Addr,
    pub region: String,
    pub proxy_endpoint: Option<Addr>,
}

impl BackendConfig {
    /// The TCP connection target: the upstream proxy endpoint when one is
    /// configured, otherwise the database endpoint itself.
    pub fn connect_endpoint(&self) -> (r: &Addr)
        ensures
            match self.proxy_endpoint {
                Some(p) => *r == p,
                None => *r == self.endpoint,
            },
    {
        match self.proxy_endpoint {
            Some(ref proxy) => proxy,
            None => &self.endpoint,
        }
    }

    /// The token-signing target: always the database endpoint, never the
    /// upstream proxy, so that authentication names the true host even
    /// when the connection is routed through an intermediary.
    pub fn auth_endpoint(&self) -> (r: &Addr)
        ensures
            *r == self.endpoint,
    {
        &self.endpoint
    }
}

} // verus!

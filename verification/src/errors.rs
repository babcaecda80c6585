//! Error kinds for the proxy pipeline.
//!
//! Every failure in the per-connection pipeline is one of these kinds; an
//! error is local to one session and terminates only that session.

use vstd::prelude::*;

verus! {

/// The reason a peer message violated the wire protocol.
#[derive(Clone, Copy, Debug, PartialEq, Eq, Structural)]
pub enum ProtocolReason {
    /// The message tag is neither the encryption-upgrade probe nor a startup
    /// message.
    UnknownTag,
    /// A null-terminated string ended before its terminator was found.
    UnexpectedEnd,
    /// A parameter that must be text did not decode as valid UTF-8, or a
    /// value to encode cannot be written as a null-terminated string.
    InvalidEncoding,
}

/// The failure kinds of the per-connection pipeline.
#[derive(Clone, Copy, Debug, PartialEq, Eq, Structural)]
pub enum ProxyError {
    /// Malformed framing: fewer bytes available than the frame declares.
    Framing,
    /// A well-framed message whose content violates the protocol.
    Protocol(ProtocolReason),
    /// The peer closed the connection before the handshake completed.
    ConnectionClosed,
    /// No resolvable credentials, or request signing failed.
    Credential,
    /// TCP-level failure reaching the backend or the upstream proxy.
    Connect,
    /// The backend declined the encryption upgrade.
    TlsUnsupported,
    /// The backend requested an authentication mechanism other than a
    /// cleartext password.
    UnexpectedAuthPrompt,
    /// Failure during the bidirectional copy phase.
    RelayIo,
}

impl ProxyError {
    /// A short human-readable description of the error kind.
    pub fn describe(&self) -> (r: &'static str)
        ensures
            r@.len() > 0,
    {
        proof {
            reveal_strlit("short or malformed packet");
            reveal_strlit("unknown message tag");
            reveal_strlit("unexpected end of stream");
            reveal_strlit("invalid parameter encoding");
            reveal_strlit("peer closed before handshake completion");
            reveal_strlit("credential resolution or signing failed");
            reveal_strlit("could not reach the backend");
            reveal_strlit("server does not support TLS");
            reveal_strlit("unexpected auth prompt");
            reveal_strlit("relay I/O failure");
        }
        match self {
            ProxyError::Framing => "short or malformed packet",
            ProxyError::Protocol(ProtocolReason::UnknownTag) => "unknown message tag",
            ProxyError::Protocol(ProtocolReason::UnexpectedEnd) => "unexpected end of stream",
            ProxyError::Protocol(ProtocolReason::InvalidEncoding) => "invalid parameter encoding",
            ProxyError::ConnectionClosed => "peer closed before handshake completion",
            ProxyError::Credential => "credential resolution or signing failed",
            ProxyError::Connect => "could not reach the backend",
            ProxyError::TlsUnsupported => "server does not support TLS",
            ProxyError::UnexpectedAuthPrompt => "unexpected auth prompt",
            ProxyError::RelayIo => "relay I/O failure",
        }
    }
}

} // verus!

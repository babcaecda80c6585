//! Verified core of a transparent authenticating proxy for a
//! username/password wire protocol.
//!
//! Clients connect believing they reach the database; the proxy intercepts
//! the startup handshake, derives a short-lived signed token for the
//! requested user, authenticates against the real backend over an encrypted
//! channel, and then relays bytes untouched. This crate holds the
//! per-connection logic: frame decoding, the handshake state machine,
//! message encoders, and token construction. The surrounding process (socket
//! I/O, TLS, credential resolution) calls into it with plain values.

pub mod backend_config;
pub mod errors;
pub mod handshake;
pub mod token;
pub mod wire;

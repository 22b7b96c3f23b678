//! The choice of framing, and the proxy settings.

use vstd::prelude::*;
use crate::text::str_copy;

verus! {

/// Which framing a connection uses.
#[derive(Clone, Copy, Debug, PartialEq, Eq)]
pub enum TransportKind {
    /// One or four length bytes; the smallest overhead.
    Abridged,
    /// Four length bytes.
    Intermediate,
    /// Length, sequence number and CRC-32.
    Full,
    /// Abridged framing under a rolling XOR keystream, with the proxy's
    /// 16-byte secret or without one.
    Obfuscated { secret: Option<[u8; 16]> },
}

impl Default for TransportKind {
    fn default() -> (k: Self)
        ensures
            k == TransportKind::Abridged,
    {
        TransportKind::Abridged
    }
}

/// A SOCKS5 proxy: its address and, if it asks for them, a user name and a
/// password.
#[derive(Clone, Debug)]
pub struct Socks5Config {
    /// Host and port of the proxy.
    pub proxy_addr: String,
    /// User name and password.
    pub auth: Option<(String, String)>,
}

impl Socks5Config {
    /// A proxy that asks for no authentication.
    pub fn new(proxy_addr: &str) -> (c: Self)
        ensures
            c.proxy_addr@ == proxy_addr@,
            c.auth is None,
    {
        Self { proxy_addr: str_copy(proxy_addr), auth: None }
    }

    /// A proxy with a user name and a password.
    pub fn with_auth(proxy_addr: &str, username: &str, password: &str) -> (c: Self)
        ensures
            c.proxy_addr@ == proxy_addr@,
            c.auth is Some,
            c.auth->Some_0.0@ == username@,
            c.auth->Some_0.1@ == password@,
    {
        Self {
            proxy_addr: str_copy(proxy_addr),
            auth: Some((str_copy(username), str_copy(password))),
        }
    }
}

} // verus!

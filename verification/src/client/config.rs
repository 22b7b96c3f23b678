//! The settings of a client.

use vstd::prelude::*;
use crate::client::retry::AutoSleep;
use crate::client::transport_kind::{Socks5Config, TransportKind};
use crate::crypto::random::{random_array, RandomUnavailable};
use crate::text::str_copy;
use crate::tl::wire::{as_i64, from_le64, read_le64};

verus! {

/// The settings of a client.
#[derive(Debug)]
pub struct Config {
    /// The application's ID.
    pub api_id: i32,
    /// The application's hash.
    pub api_hash: String,
    /// The address to connect to first, in place of the default.
    pub dc_addr: Option<String>,
    /// What to do when a request fails.
    pub retry_policy: AutoSleep,
    /// The proxy through which every connection goes, if any.
    pub socks5: Option<Socks5Config>,
    /// Whether addresses of version 6 are taken from the server's
    /// configuration.
    pub allow_ipv6: bool,
    /// The framing of every connection.
    pub transport: TransportKind,
    /// The file that keeps the session.
    pub session_path: String,
}

impl Default for Config {
    fn default() -> (c: Self)
        ensures
            c.api_id == 0,
            c.api_hash@ == Seq::<char>::empty(),
            c.dc_addr is None,
            c.retry_policy.threshold.millis == 60_000,
            c.retry_policy.io_errors_as_flood_of == Some(
                crate::client::retry::Delay { millis: 1_000 },
            ),
            c.socks5 is None,
            !c.allow_ipv6,
            c.transport == TransportKind::Abridged,
            c.session_path@ == "layer.session"@,
    {
        Config {
            api_id: 0,
            api_hash: String::new(),
            dc_addr: None,
            retry_policy: AutoSleep::default(),
            socks5: None,
            allow_ipv6: false,
            transport: TransportKind::Abridged,
            session_path: str_copy("layer.session"),
        }
    }
}

/// The number that eight bytes hold, little-endian.
pub fn i64_from_bytes(bytes: &[u8; 8]) -> (n: i64)
    ensures
        n == as_i64(from_le64(bytes@)),
{
    let n = #[verifier::truncate] (read_le64(bytes.as_slice(), 0) as i64);
    assert(bytes@.skip(0) =~= bytes@);
    n
}

/// A random number for identifiers that must not repeat, or the failure of
/// the system's random source.
pub fn random_i64_pub() -> (n: Result<i64, RandomUnavailable>) {
    match random_array::<8>() {
        Ok(b) => Ok(i64_from_bytes(&b)),
        Err(e) => Err(e),
    }
}

/// The part of an invite link that names the chat: what follows `/+` or
/// `/joinchat/`.
pub fn parse_invite_hash(link: &str) -> (r: Option<String>)
    ensures
        match spec_invite_hash(vstd::string::StringSliceAdditionalSpecFns::spec_bytes(link)) {
            Some(h) => r is Some && r->Some_0@ == crate::client::session::spec_lenient_text(h),
            None => r is None,
        },
{
    let b = link.as_bytes();
    let plus = "/+".as_bytes();
    let join = "/joinchat/".as_bytes();
    let total = b.len();
    match find_sub(b, plus) {
        Some(i) => {
            let h = crate::tl::wire::copy_range(b, i + plus.len(), total);
            Some(crate::client::session::lenient_text(h.as_slice()))
        },
        None => match find_sub(b, join) {
            Some(i) => {
                let h = crate::tl::wire::copy_range(b, i + join.len(), total);
                Some(crate::client::session::lenient_text(h.as_slice()))
            },
            None => None,
        },
    }
}

/// The first place at or after `from` where `needle` stands in `s`.
pub open spec fn sub_index_from(s: Seq<u8>, needle: Seq<u8>, from: int) -> Option<int>
    decreases s.len() - from,
{
    if from < 0 || from + needle.len() > s.len() {
        None
    } else if s.subrange(from, from + needle.len()) == needle {
        Some(from)
    } else if from >= s.len() {
        None
    } else {
        sub_index_from(s, needle, from + 1)
    }
}

/// What follows the first `/+` in `link`, or else the first `/joinchat/`.
pub open spec fn spec_invite_hash(link: Seq<u8>) -> Option<Seq<u8>> {
    let plus = vstd::string::StringSliceAdditionalSpecFns::spec_bytes("/+");
    let join = vstd::string::StringSliceAdditionalSpecFns::spec_bytes("/joinchat/");
    match sub_index_from(link, plus, 0) {
        Some(i) => Some(link.skip(i + plus.len())),
        None => match sub_index_from(link, join, 0) {
            Some(i) => Some(link.skip(i + join.len())),
            None => None,
        },
    }
}

/// Finds the first place where `needle` stands in `s`.
pub fn find_sub(s: &[u8], needle: &[u8]) -> (r: Option<usize>)
    ensures
        match sub_index_from(s@, needle@, 0) {
            Some(i) => r is Some && r->Some_0 as int == i && i + needle@.len() <= s@.len(),
            None => r is None,
        },
{
    let n = s.len();
    let m = needle.len();
    if m > n {
        return None;
    }
    if m == 0 {
        assert(s@.subrange(0, 0) =~= needle@);
        return Some(0);
    }
    let mut i: usize = 0;
    while i <= n - m
        invariant
            1 <= m <= n,
            n == s@.len(),
            m == needle@.len(),
            i <= n - m + 1,
            sub_index_from(s@, needle@, 0) == sub_index_from(s@, needle@, i as int),
        decreases n - m + 1 - i,
    {
        let part = crate::tl::wire::copy_range(s, i, i + m);
        if crate::tl::wire::bytes_eq(part.as_slice(), needle) {
            return Some(i);
        }
        i += 1;
    }
    None
}

} // verus!

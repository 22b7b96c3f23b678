//! Randomness from the operating system.

use vstd::prelude::*;

verus! {

/// The operating system had no random bytes to give.
#[derive(Clone, Copy, Debug, PartialEq, Eq, Structural)]
pub struct RandomUnavailable;

impl RandomUnavailable {
    /// The error in words.
    pub fn to_string(&self) -> (s: String)
        ensures
            s@ == "the operating system's random source failed"@,
    {
        crate::text::text_of("the operating system's random source failed")
    }
}

/// `getrandom::getrandom` on a fresh array: `N` bytes from the operating
/// system's random source, or its failure. Nothing is known of the bytes,
/// nor of when the source fails.
#[verifier::external_body]
pub(crate) fn random_array<const N: usize>() -> (out: Result<[u8; N], RandomUnavailable>) {
    let mut out = [0u8; N];
    match getrandom::getrandom(&mut out) {
        Ok(()) => Ok(out),
        Err(_) => Err(RandomUnavailable),
    }
}

} // verus!

//! Decompression of packed payloads.

use vstd::prelude::*;
use std::io::Read;

verus! {

/// What a gzip stream decompresses to; nothing where it is not gzip.
pub uninterp spec fn spec_gunzip(data: Seq<u8>) -> Option<Seq<u8>>;

/// What a zlib stream decompresses to; nothing where it is not zlib.
pub uninterp spec fn spec_zlib(data: Seq<u8>) -> Option<Seq<u8>>;

/// `GzDecoder` of `flate2`, read to its end: the decompressed bytes, or
/// nothing where reading fails.
#[verifier::external_body]
pub(crate) fn gunzip(data: &[u8]) -> (out: Option<Vec<u8>>)
    ensures
        match spec_gunzip(data@) {
            Some(v) => out is Some && out->Some_0@ == v,
            None => out is None,
        },
{
    let mut out = Vec::new();
    match flate2::read::GzDecoder::new(data).read_to_end(&mut out) {
        Ok(_) => Some(out),
        Err(_) => None,
    }
}

/// `ZlibDecoder` of `flate2`, read to its end: the decompressed bytes, or
/// nothing where reading fails.
#[verifier::external_body]
pub(crate) fn zlib(data: &[u8]) -> (out: Option<Vec<u8>>)
    ensures
        match spec_zlib(data@) {
            Some(v) => out is Some && out->Some_0@ == v,
            None => out is None,
        },
{
    let mut out = Vec::new();
    match flate2::read::ZlibDecoder::new(data).read_to_end(&mut out) {
        Ok(_) => Some(out),
        Err(_) => None,
    }
}

/// What a packed payload holds: what gzip gives, unless that fails or gives
/// nothing, in which case what zlib gives.
pub open spec fn spec_inflate(data: Seq<u8>) -> Option<Seq<u8>> {
    match spec_gunzip(data) {
        Some(v) => if v.len() > 0 {
            Some(v)
        } else {
            spec_zlib(data)
        },
        None => spec_zlib(data),
    }
}

/// Decompresses a packed payload, trying gzip first and zlib second.
pub fn gz_inflate(data: &[u8]) -> (out: Option<Vec<u8>>)
    ensures
        match spec_inflate(data@) {
            Some(v) => out is Some && out->Some_0@ == v,
            None => out is None,
        },
{
    match gunzip(data) {
        Some(v) => {
            if v.len() > 0 {
                return Some(v);
            }
        },
        None => {},
    }
    zlib(data)
}

} // verus!

//! The password check of accounts with two-factor authentication: the
//! client proves that it knows the password without sending it.

use vstd::prelude::*;
use hmac::Hmac;
use sha2::Sha512;
use crate::crypto::bigint::{
    be_value, less_be, lemma_be_value_single, min_be, modpow_be, mul_add_be, mul_mod_be,
    spec_modpow, sub_mod_be,
};
use crate::crypto::rsa::xor_bytes;
use crate::crypto::sha::{sha256, spec_sha256};
use crate::tl::serialize::zeros;
use crate::tl::wire::{copy_range, load_array, push_all};

verus! {

/// The PBKDF2 key of 64 bytes that HMAC-SHA-512 derives from a password
/// and a salt in a number of rounds.
pub uninterp spec fn spec_pbkdf2_sha512(password: Seq<u8>, salt: Seq<u8>, rounds: u32) -> Seq<u8>;

/// `pbkdf2::pbkdf2` with `Hmac<Sha512>` on a fresh buffer of 64 bytes. HMAC
/// takes keys of any length, so the call cannot fail.
#[verifier::external_body]
pub(crate) fn pbkdf2_sha512(password: &[u8], salt: &[u8], rounds: u32) -> (out: [u8; 64])
    ensures
        out@ == spec_pbkdf2_sha512(password@, salt@, rounds),
{
    let mut dk = [0u8; 64];
    pbkdf2::pbkdf2::<Hmac<Sha512>>(password, salt, rounds, &mut dk).unwrap();
    dk
}

/// The rounds of the key derivation.
pub const PBKDF2_ROUNDS: u32 = 100_000;

/// The digest of `data` between two copies of `salt`.
pub open spec fn spec_sh(data: Seq<u8>, salt: Seq<u8>) -> Seq<u8> {
    spec_sha256(salt + data + salt)
}

/// The first password hash.
pub open spec fn spec_ph1(password: Seq<u8>, salt1: Seq<u8>, salt2: Seq<u8>) -> Seq<u8> {
    spec_sh(spec_sh(password, salt1), salt2)
}

/// The second password hash: the first, stretched with PBKDF2 and salted
/// once more.
pub open spec fn spec_ph2(password: Seq<u8>, salt1: Seq<u8>, salt2: Seq<u8>) -> Seq<u8> {
    spec_sh(spec_pbkdf2_sha512(spec_ph1(password, salt1, salt2), salt1, PBKDF2_ROUNDS), salt2)
}

/// The last 256 bytes of `data`, with zero bytes before them where `data`
/// is shorter.
pub open spec fn spec_pad256(data: Seq<u8>) -> Seq<u8> {
    if data.len() >= 256 {
        data.skip(data.len() - 256)
    } else {
        zeros(256 - data.len()) + data
    }
}

/// The digest of `data` between two copies of `salt`.
pub fn sh(data: &[u8], salt: &[u8]) -> (h: [u8; 32])
    ensures
        h@ == spec_sh(data@, salt@),
{
    let mut input: Vec<u8> = Vec::new();
    push_all(&mut input, salt);
    push_all(&mut input, data);
    push_all(&mut input, salt);
    sha256(input.as_slice())
}

/// The first password hash.
pub fn ph1(password: &[u8], salt1: &[u8], salt2: &[u8]) -> (h: [u8; 32])
    ensures
        h@ == spec_ph1(password@, salt1@, salt2@),
{
    let inner = sh(password, salt1);
    sh(inner.as_slice(), salt2)
}

/// The second password hash.
pub fn ph2(password: &[u8], salt1: &[u8], salt2: &[u8]) -> (h: [u8; 32])
    ensures
        h@ == spec_ph2(password@, salt1@, salt2@),
{
    let hash1 = ph1(password, salt1, salt2);
    let dk = pbkdf2_sha512(hash1.as_slice(), salt1, PBKDF2_ROUNDS);
    sh(dk.as_slice(), salt2)
}

/// The last 256 bytes of `data`, left-padded with zeros.
pub fn pad256(data: &[u8]) -> (out: [u8; 256])
    ensures
        out@ == spec_pad256(data@),
{
    let n = data.len();
    let mut buf: Vec<u8> = Vec::new();
    if n >= 256 {
        let tail = copy_range(data, n - 256, n);
        assert(tail@ =~= data@.skip(n - 256));
        push_all(&mut buf, tail.as_slice());
    } else {
        buf.resize(256 - n, 0u8);
        assert(buf@ =~= zeros(256 - n));
        push_all(&mut buf, data);
    }
    let out = load_array::<256>(buf.as_slice(), 0);
    assert(out@ =~= buf@);
    out
}

/// Bytewise XOR of two digests.
pub fn xor32(a: &[u8; 32], b: &[u8; 32]) -> (out: [u8; 32])
    ensures
        out@ == xor_bytes(a@, b@),
{
    let mut out = [0u8; 32];
    let mut i: usize = 0;
    while i < 32
        invariant
            i <= 32,
            forall|k: int| 0 <= k < i ==> out@[k] == a@[k] ^ b@[k],
        decreases 32 - i,
    {
        out[i] = a[i] ^ b[i];
        i += 1;
    }
    assert(out@ =~= xor_bytes(a@, b@));
    out
}

/// The proof `M1` and the client's share `g_a`, as contracts see them.
pub struct SrpAnswer {
    pub m1: Seq<u8>,
    pub g_a: Seq<u8>,
}

/// The answer to the password challenge with the salts `salt1` and
/// `salt2`, the prime `p`, the generator `g`, the server's share `g_b` and
/// our secret `a`, for the password `password`. With `H` for SHA-256 and all
/// numbers big-endian in 256 bytes:
///
/// ```text
/// k   = H(p | g)             g_a = g^a mod p          u = H(g_a | g_b)
/// x   = PH2(password)        v   = g^x mod p
/// t   = (g_b - k*v) mod p    s_a = t^(a + u*x) mod p  k_a = H(s_a)
/// M1  = H(H(p) xor H(g) | H(salt1) | H(salt2) | g_a | g_b | k_a)
/// ```
///
/// There is no answer for a prime below two.
pub open spec fn spec_calculate_2fa(
    salt1: Seq<u8>,
    salt2: Seq<u8>,
    p: Seq<u8>,
    g: i32,
    g_b: Seq<u8>,
    a: Seq<u8>,
    password: Seq<u8>,
) -> Option<SrpAnswer> {
    if be_value(p) < 2 {
        None
    } else {
        let prime = be_value(p);
        let g_b = spec_pad256(g_b);
        let a = spec_pad256(a);
        let g_hash = spec_pad256(seq![g as u8]);
        let big_g = min_be((g as u32) as nat);
        let k = spec_sha256(p + g_hash);
        let g_a = spec_pad256(min_be(spec_modpow(be_value(big_g), be_value(a), prime)));
        let u = spec_sha256(g_a + g_b);
        let x = spec_ph2(password, salt1, salt2);
        let v = min_be(spec_modpow(be_value(big_g), be_value(x), prime));
        let kv = min_be(((be_value(k) * be_value(v)) % prime) as nat);
        let t = min_be(((be_value(g_b) - be_value(kv)) % (prime as int)) as nat);
        let exp = min_be(be_value(a) + be_value(u) * be_value(x));
        let s_a = min_be(spec_modpow(be_value(t), be_value(exp), prime));
        let k_a = spec_sha256(spec_pad256(s_a));
        let p_xg = xor_bytes(spec_sha256(p), spec_sha256(g_hash));
        Some(
            SrpAnswer {
                m1: spec_sha256(
                    p_xg + spec_sha256(salt1) + spec_sha256(salt2) + g_a + g_b + k_a,
                ),
                g_a,
            },
        )
    }
}

/// The big-endian bytes of `v` without leading zero bytes.
fn be_of_u32(v: u32) -> (out: Vec<u8>)
    ensures
        out@ == min_be(v as nat),
{
    let mut out: Vec<u8> = Vec::new();
    if v >= 0x100_0000 {
        out.push((v >> 24) as u8);
    }
    if v >= 0x1_0000 {
        out.push(((v >> 16) & 0xff) as u8);
    }
    if v >= 0x100 {
        out.push(((v >> 8) & 0xff) as u8);
    }
    out.push((v & 0xff) as u8);
    proof {
        assert((v >> 24) == v / 0x100_0000 && ((v >> 16) & 0xff) == (v / 0x1_0000) % 256 && ((v
            >> 8) & 0xff) == (v / 0x100) % 256 && (v & 0xff) == v % 256) by (bit_vector);
        let n = v as nat;
        reveal_with_fuel(min_be, 5);
        assert(out@ =~= min_be(n));
    }
    out
}

/// Answers the password challenge: the proof `M1` and our share `g_a`.
pub fn calculate_2fa(
    salt1: &[u8],
    salt2: &[u8],
    p: &[u8],
    g: i32,
    g_b: &[u8],
    a: &[u8],
    password: &[u8],
) -> (r: Option<([u8; 32], [u8; 256])>)
    ensures
        match spec_calculate_2fa(salt1@, salt2@, p@, g, g_b@, a@, password@) {
            Some(answer) => r is Some && r->Some_0.0@ == answer.m1 && r->Some_0.1@ == answer.g_a,
            None => r is None,
        },
{
    let one: [u8; 1] = [1u8];
    proof {
        assert(one@ =~= seq![1u8]);
        lemma_be_value_single(1u8);
    }
    if !less_be(one.as_slice(), p) {
        return None;
    }
    let g_b = pad256(g_b);
    let a = pad256(a);
    let g_byte: [u8; 1] = [#[verifier::truncate] (g as u8)];
    assert(g_byte@ =~= seq![g as u8]);
    let g_hash = pad256(g_byte.as_slice());
    let big_g = be_of_u32(#[verifier::truncate] (g as u32));

    let mut input: Vec<u8> = Vec::new();
    push_all(&mut input, p);
    push_all(&mut input, g_hash.as_slice());
    let k = sha256(input.as_slice());

    let g_a_min = modpow_be(big_g.as_slice(), a.as_slice(), p);
    let g_a = pad256(g_a_min.as_slice());

    let mut input: Vec<u8> = Vec::new();
    push_all(&mut input, g_a.as_slice());
    push_all(&mut input, g_b.as_slice());
    let u = sha256(input.as_slice());

    let x = ph2(password, salt1, salt2);
    let v = modpow_be(big_g.as_slice(), x.as_slice(), p);
    let kv = mul_mod_be(k.as_slice(), v.as_slice(), p);
    let t = sub_mod_be(g_b.as_slice(), kv.as_slice(), p);
    let exp = mul_add_be(a.as_slice(), u.as_slice(), x.as_slice());
    let s_a = modpow_be(t.as_slice(), exp.as_slice(), p);
    let s_a_padded = pad256(s_a.as_slice());
    let k_a = sha256(s_a_padded.as_slice());

    let h_p = sha256(p);
    let h_g = sha256(g_hash.as_slice());
    let p_xg = xor32(&h_p, &h_g);
    let h_s1 = sha256(salt1);
    let h_s2 = sha256(salt2);
    let mut input: Vec<u8> = Vec::new();
    push_all(&mut input, p_xg.as_slice());
    push_all(&mut input, h_s1.as_slice());
    push_all(&mut input, h_s2.as_slice());
    push_all(&mut input, g_a.as_slice());
    push_all(&mut input, g_b.as_slice());
    push_all(&mut input, k_a.as_slice());
    let m1 = sha256(input.as_slice());
    Some((m1, g_a))
}

} // verus!

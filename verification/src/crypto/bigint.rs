//! Unsigned big integers as big-endian byte strings, with the arithmetic
//! that the key exchange needs.

use vstd::prelude::*;
use vstd::arithmetic::power::pow;
use num_bigint::{BigInt, BigUint, Sign};
use num_traits::Euclid;

verus! {

/// The number that the big-endian byte string `s` stands for. Leading zero
/// bytes do not count; the empty string is zero.
pub open spec fn be_value(s: Seq<u8>) -> nat
    decreases s.len(),
{
    if s.len() == 0 {
        0
    } else {
        be_value(s.drop_last()) * 256 + s.last() as nat
    }
}

/// `s` is the shortest big-endian form of its number: no leading zero byte,
/// and the single byte zero for zero.
pub open spec fn is_minimal_be(s: Seq<u8>) -> bool {
    s.len() >= 1 && (s.len() == 1 || s[0] != 0)
}

/// The shortest big-endian form of `v`.
pub open spec fn min_be(v: nat) -> Seq<u8>
    decreases v,
{
    if v < 256 {
        seq![v as u8]
    } else {
        min_be(v / 256).push((v % 256) as u8)
    }
}

/// The decimal number written in the UTF-8 text `text`, in its shortest
/// big-endian form; nothing where `text` is not a decimal number.
pub uninterp spec fn spec_decimal_be(text: Seq<u8>) -> Option<Seq<u8>>;

/// `base` to the power `exponent`, reduced by `modulus`.
pub open spec fn spec_modpow(base: nat, exponent: nat, modulus: nat) -> nat {
    (pow(base as int, exponent) % (modulus as int)) as nat
}

/// `BigUint::modpow` of `num-bigint`, between `from_bytes_be` and
/// `to_bytes_be`: `base` to the power `exponent`, reduced by `modulus`, in
/// its shortest big-endian form. The crate refuses a zero modulus; a modulus
/// of at least two keeps clear of that.
#[verifier::external_body]
pub(crate) fn modpow_be(base: &[u8], exponent: &[u8], modulus: &[u8]) -> (out: Vec<u8>)
    requires
        be_value(modulus@) >= 2,
    ensures
        out@ == min_be(spec_modpow(be_value(base@), be_value(exponent@), be_value(modulus@))),
{
    let b = BigUint::from_bytes_be(base);
    let e = BigUint::from_bytes_be(exponent);
    let m = BigUint::from_bytes_be(modulus);
    b.modpow(&e, &m).to_bytes_be()
}

/// The order of `BigUint` in `num-bigint`, after `from_bytes_be`: whether
/// the number `a` is below the number `b`.
#[verifier::external_body]
pub(crate) fn less_be(a: &[u8], b: &[u8]) -> (below: bool)
    ensures
        below == (be_value(a@) < be_value(b@)),
{
    BigUint::from_bytes_be(a) < BigUint::from_bytes_be(b)
}

/// The subtraction of `BigUint` in `num-bigint`, between `from_bytes_be` and
/// `to_bytes_be`: `a - b` in its shortest big-endian form. The crate refuses
/// a negative difference.
#[verifier::external_body]
pub(crate) fn sub_be(a: &[u8], b: &[u8]) -> (out: Vec<u8>)
    requires
        be_value(a@) >= be_value(b@),
    ensures
        out@ == min_be((be_value(a@) - be_value(b@)) as nat),
{
    (BigUint::from_bytes_be(a) - BigUint::from_bytes_be(b)).to_bytes_be()
}

/// The multiplication and the remainder of `BigUint` in `num-bigint`,
/// between `from_bytes_be` and `to_bytes_be`: `a * b` reduced by `m`, in its
/// shortest big-endian form. The crate refuses a zero modulus.
#[verifier::external_body]
pub(crate) fn mul_mod_be(a: &[u8], b: &[u8], m: &[u8]) -> (out: Vec<u8>)
    requires
        be_value(m@) >= 1,
    ensures
        out@ == min_be(((be_value(a@) * be_value(b@)) % be_value(m@)) as nat),
{
    ((BigUint::from_bytes_be(a) * BigUint::from_bytes_be(b)) % BigUint::from_bytes_be(m)).to_bytes_be()
}

/// `Euclid::rem_euclid` of `num-traits` on the difference of two `BigInt`
/// of `num-bigint`: `a - b` reduced by `m` to the range from zero to `m`,
/// in its shortest big-endian form. The crate refuses a zero modulus.
#[verifier::external_body]
pub(crate) fn sub_mod_be(a: &[u8], b: &[u8], m: &[u8]) -> (out: Vec<u8>)
    requires
        be_value(m@) >= 1,
    ensures
        out@ == min_be(((be_value(a@) - be_value(b@)) % (be_value(m@) as int)) as nat),
{
    let diff = BigInt::from_bytes_be(Sign::Plus, a) - BigInt::from_bytes_be(Sign::Plus, b);
    diff.rem_euclid(&BigInt::from_bytes_be(Sign::Plus, m)).to_bytes_be().1
}

/// The multiplication and the addition of `BigUint` in `num-bigint`,
/// between `from_bytes_be` and `to_bytes_be`: `a + u * x` in its shortest
/// big-endian form.
#[verifier::external_body]
pub(crate) fn mul_add_be(a: &[u8], u: &[u8], x: &[u8]) -> (out: Vec<u8>)
    ensures
        out@ == min_be(be_value(a@) + be_value(u@) * be_value(x@)),
{
    (BigUint::from_bytes_be(a) + BigUint::from_bytes_be(u) * BigUint::from_bytes_be(x)).to_bytes_be()
}

/// `BigUint::parse_bytes` of `num-bigint` with radix ten, then
/// `to_bytes_be`: the decimal number that `text` writes. For a text of
/// decimal digits and nothing else that is the number the digits write; what
/// else the crate takes for a number is left to it.
#[verifier::external_body]
pub(crate) fn decimal_be(text: &[u8]) -> (out: Option<Vec<u8>>)
    ensures
        match spec_decimal_be(text@) {
            Some(v) => out is Some && out->Some_0@ == v,
            None => out is None,
        },
        text@.len() > 0 && crate::text::all_digits(text@) ==> out is Some && out->Some_0@ == min_be(
            crate::text::decimal_value(text@),
        ),
{
    match BigUint::parse_bytes(text, 10) {
        Some(n) => Some(n.to_bytes_be()),
        None => None,
    }
}

/// `BigUint::to_string` of `num-bigint`, behind `from_bytes_be`: the number
/// that `bytes` write in big-endian form, in decimal without leading zeros.
#[verifier::external_body]
pub(crate) fn decimal_of_be(bytes: &[u8]) -> (out: Vec<u8>)
    ensures
        out@ == crate::text::spec_decimal_nat(be_value(bytes@)),
{
    BigUint::from_bytes_be(bytes).to_string().into_bytes()
}

/// Appending a byte multiplies the number by 256 and adds the byte.
pub proof fn lemma_be_value_push(s: Seq<u8>, b: u8)
    ensures
        be_value(s.push(b)) == be_value(s) * 256 + b as nat,
{
    assert(s.push(b).drop_last() =~= s);
}

/// A string of zero bytes stands for zero.
pub proof fn lemma_be_value_zeros(s: Seq<u8>)
    requires
        forall|i: int| 0 <= i < s.len() ==> s[i] == 0,
    ensures
        be_value(s) == 0,
    decreases s.len(),
{
    if s.len() > 0 {
        lemma_be_value_zeros(s.drop_last());
    }
}

/// The shortest form of a number stands for that number, and is shortest.
pub proof fn lemma_min_be(v: nat)
    ensures
        be_value(min_be(v)) == v,
        is_minimal_be(min_be(v)),
        v > 0 ==> min_be(v)[0] != 0,
    decreases v,
{
    if v < 256 {
        lemma_be_value_single(v as u8);
    } else {
        lemma_min_be(v / 256);
        lemma_be_value_push(min_be(v / 256), (v % 256) as u8);
        assert(min_be(v)[0] == min_be(v / 256)[0]);
    }
}

/// A number of `n` bytes is below 256 to the power `n`.
pub proof fn lemma_be_value_bound(s: Seq<u8>)
    ensures
        be_value(s) < pow(256, s.len()),
    decreases s.len(),
{
    reveal(pow);
    if s.len() > 0 {
        lemma_be_value_bound(s.drop_last());
        let hi = be_value(s.drop_last());
        let p = pow(256, (s.len() - 1) as nat);
        assert(hi * 256 + 255 < p * 256) by (nonlinear_arith)
            requires
                hi < p,
        ;
        assert(pow(256, s.len()) == 256 * pow(256, (s.len() - 1) as nat));
    }
}

/// The one-byte string for a number below 256.
pub proof fn lemma_be_value_single(b: u8)
    ensures
        be_value(seq![b]) == b as nat,
{
    assert(seq![b].drop_last() =~= Seq::<u8>::empty());
    assert(seq![b].last() == b);
    assert(be_value(Seq::<u8>::empty()) == 0);
}

} // verus!

//! The padded RSA encryption of the key exchange (RSA-PAD).

use vstd::prelude::*;
use vstd::arithmetic::power::pow;
use vstd::string::StringSliceAdditionalSpecFns;
use crate::crypto::aes::{ige_encrypt, spec_ige_encrypt};
use crate::crypto::bigint::{
    be_value, decimal_be, lemma_be_value_bound, lemma_be_value_push, lemma_be_value_single,
    less_be, min_be, modpow_be,
    spec_decimal_be, spec_modpow,
};
use crate::crypto::sha::{sha256, spec_sha256};
use crate::tl::serialize::zeros;
use crate::tl::wire::{copy_range, load_array, push_all};

verus! {

/// An RSA public key: modulus and exponent, each as a big-endian byte string.
#[derive(Debug)]
pub struct Key {
    pub(crate) n: Vec<u8>,
    pub(crate) e: Vec<u8>,
}

impl Key {
    /// The modulus.
    pub closed spec fn modulus(self) -> Seq<u8> {
        self.n@
    }

    /// The public exponent.
    pub closed spec fn exponent(self) -> Seq<u8> {
        self.e@
    }

    /// The key with the decimal modulus `n` and the decimal exponent `e`;
    /// nothing where either is not a decimal number.
    pub fn new(n: &str, e: &str) -> (key: Option<Self>)
        ensures
            match (spec_decimal_be(n.spec_bytes()), spec_decimal_be(e.spec_bytes())) {
                (Some(a), Some(b)) => key is Some && key->Some_0.modulus() == a
                    && key->Some_0.exponent() == b,
                _ => key is None,
            },
            n@.len() > 0 && e@.len() > 0 && crate::text::digit_chars(n@) && crate::text::digit_chars(
                e@,
            ) ==> key is Some && key->Some_0.modulus() == crate::crypto::bigint::min_be(
                crate::text::decimal_value(n.spec_bytes()),
            ) && key->Some_0.exponent() == crate::crypto::bigint::min_be(
                crate::text::decimal_value(e.spec_bytes()),
            ),
    {
        proof {
            if crate::text::digit_chars(n@) {
                crate::text::lemma_digits_encode(n@);
            }
            if crate::text::digit_chars(e@) {
                crate::text::lemma_digits_encode(e@);
            }
        }
        let n = match decimal_be(n.as_bytes()) {
            Some(v) => v,
            None => {
                return None;
            },
        };
        let e = match decimal_be(e.as_bytes()) {
            Some(v) => v,
            None => {
                return None;
            },
        };
        Some(Self { n, e })
    }
}

/// Every byte of `s` is `0xff`.
pub open spec fn all_ff(s: Seq<u8>) -> bool {
    forall|i: int| 0 <= i < s.len() ==> s[i] == 0xff
}

/// The big-endian number `s` plus one, in as many bytes; the largest number
/// becomes zero.
pub open spec fn spec_increment(s: Seq<u8>) -> Seq<u8>
    decreases s.len(),
{
    if s.len() == 0 {
        s
    } else if s.last() != 0xff {
        s.drop_last().push((s.last() + 1) as u8)
    } else {
        spec_increment(s.drop_last()).push(0u8)
    }
}

/// Below the largest number, incrementing adds one.
pub proof fn lemma_increment_value(s: Seq<u8>)
    requires
        !all_ff(s),
    ensures
        be_value(spec_increment(s)) == be_value(s) + 1,
        spec_increment(s).len() == s.len(),
    decreases s.len(),
{
    if s.len() == 0 {
    } else if s.last() != 0xff {
        lemma_be_value_push(s.drop_last(), (s.last() + 1) as u8);
    } else {
        let head = s.drop_last();
        assert(!all_ff(head)) by {
            if all_ff(head) {
                assert forall|i: int| 0 <= i < s.len() implies s[i] == 0xff by {
                    if i < s.len() - 1 {
                        assert(head[i] == s[i]);
                    }
                }
            }
        }
        lemma_increment_value(head);
        lemma_be_value_push(spec_increment(head), 0u8);
    }
}

/// Incrementing a string whose last `k` bytes are `0xff` increments what
/// stands before them and zeroes them.
proof fn lemma_increment_tail(s: Seq<u8>, k: int)
    requires
        0 <= k <= s.len(),
        forall|i: int| s.len() - k <= i < s.len() ==> s[i] == 0xff,
    ensures
        spec_increment(s) == spec_increment(s.take(s.len() - k)) + zeros(k),
    decreases k,
{
    if k == 0 {
        assert(s.take(s.len() as int) =~= s);
        assert(spec_increment(s) + zeros(0) =~= spec_increment(s));
    } else {
        let head = s.drop_last();
        assert(head.take(head.len() - (k - 1)) =~= s.take(s.len() - k));
        lemma_increment_tail(head, k - 1);
        assert((spec_increment(s.take(s.len() - k)) + zeros(k - 1)).push(0u8)
            =~= spec_increment(s.take(s.len() - k)) + zeros(k));
    }
}

/// Adds one to the big-endian number in `data`. Says whether the number
/// was the largest, in which case `data` is all zero afterwards.
pub fn increment(data: &mut [u8; 32]) -> (wrapped: bool)
    ensures
        wrapped == all_ff(old(data)@),
        final(data)@ == spec_increment(old(data)@),
{
    let mut i: usize = 32;
    while i > 0
        invariant
            i <= 32,
            data@.len() == 32,
            forall|k: int| i <= k < 32 ==> old(data)@[k] == 0xff,
            forall|k: int| i <= k < 32 ==> data@[k] == 0,
            forall|k: int| 0 <= k < i ==> data@[k] == old(data)@[k],
        decreases i,
    {
        i -= 1;
        if data[i] != 0xff {
            let v = data[i];
            data[i] = v + 1;
            proof {
                let s = old(data)@;
                lemma_increment_tail(s, 31 - i);
                let head = s.take(i + 1);
                assert(head.last() == v);
                assert(data@ =~= head.drop_last().push((v + 1) as u8) + zeros(31 - i));
                assert(!all_ff(s)) by {
                    assert(s[i as int] != 0xff);
                }
            }
            return false;
        }
        data[i] = 0;
    }
    proof {
        let s = old(data)@;
        lemma_increment_tail(s, 32);
        assert(s.take(0) =~= Seq::<u8>::empty());
        assert(data@ =~= Seq::<u8>::empty() + zeros(32));
    }
    true
}

/// Bytewise XOR of two byte strings of one length.
pub open spec fn xor_bytes(a: Seq<u8>, b: Seq<u8>) -> Seq<u8> {
    Seq::new(a.len(), |i: int| a[i] ^ b[i])
}

/// The payload filled up to 192 bytes with the first random bytes.
pub open spec fn rsa_padded(data: Seq<u8>, random: Seq<u8>) -> Seq<u8> {
    data + random.take(192 - data.len())
}

/// The candidate that a temporary key gives: the key XORed with the digest
/// of the encrypted block, then the encrypted block. The block is the
/// reversed padded payload and the digest of key and padded payload,
/// encrypted with AES-256-IGE under the temporary key and a zero IV.
pub open spec fn rsa_candidate(padded: Seq<u8>, temp_key: Seq<u8>) -> Seq<u8> {
    let with_hash = padded.reverse() + spec_sha256(temp_key + padded);
    let encrypted = spec_ige_encrypt(temp_key, zeros(32), with_hash);
    xor_bytes(temp_key, spec_sha256(encrypted)) + encrypted
}

/// How many temporary keys there are from `key` up to the largest.
pub open spec fn tries_left(key: Seq<u8>) -> nat {
    (pow(256, key.len()) - be_value(key)) as nat
}

/// The first candidate below the modulus `n`, trying the temporary keys
/// `key`, `key + 1`, ... up to the largest, at most `fuel` of them.
pub open spec fn rsa_search(padded: Seq<u8>, key: Seq<u8>, n: Seq<u8>, fuel: nat) -> Option<
    Seq<u8>,
>
    decreases fuel,
{
    if fuel == 0 {
        None
    } else {
        let candidate = rsa_candidate(padded, key);
        if be_value(candidate) < be_value(n) {
            Some(candidate)
        } else if all_ff(key) {
            None
        } else {
            rsa_search(padded, spec_increment(key), n, (fuel - 1) as nat)
        }
    }
}

/// `s` with zero bytes in front of it, up to `width` bytes.
pub open spec fn left_pad(s: Seq<u8>, width: int) -> Seq<u8> {
    if s.len() >= width {
        s
    } else {
        zeros(width - s.len()) + s
    }
}

/// The RSA-PAD encryption of `data` under the modulus `n` and the exponent
/// `e`: the first candidate below `n`, raised to `e` modulo `n`, in 256
/// bytes. Nothing where `n` is below two, or no temporary key gives a
/// candidate below `n`.
pub open spec fn spec_encrypt_hashed(data: Seq<u8>, n: Seq<u8>, e: Seq<u8>, random: Seq<u8>) -> Option<
    Seq<u8>,
> {
    let padded = rsa_padded(data, random);
    let key = random.skip(192);
    if be_value(n) < 2 {
        None
    } else {
        match rsa_search(padded, key, n, tries_left(key)) {
            Some(candidate) => Some(
                left_pad(min_be(spec_modpow(be_value(candidate), be_value(e), be_value(n))), 256),
            ),
            None => None,
        }
    }
}

/// Builds the candidate that `temp_key` gives for the padded payload.
fn make_candidate(padded: &Vec<u8>, temp_key: &[u8; 32]) -> (candidate: Vec<u8>)
    requires
        padded@.len() == 192,
    ensures
        candidate@ == rsa_candidate(padded@, temp_key@),
{
    let mut with_hash: Vec<u8> = Vec::new();
    let mut i: usize = 192;
    while i > 0
        invariant
            i <= 192,
            padded@.len() == 192,
            with_hash@.len() == 192 - i,
            forall|k: int| 0 <= k < 192 - i ==> with_hash@[k] == padded@[191 - k],
        decreases i,
    {
        i -= 1;
        with_hash.push(padded[i]);
    }
    assert(with_hash@ =~= padded@.reverse());
    let mut keyed: Vec<u8> = Vec::new();
    push_all(&mut keyed, temp_key.as_slice());
    push_all(&mut keyed, padded.as_slice());
    let digest = sha256(keyed.as_slice());
    assert(keyed@ =~= temp_key@ + padded@);
    push_all(&mut with_hash, digest.as_slice());
    assert(with_hash@.len() == 224);
    let zero_iv = [0u8; 32];
    assert(zero_iv@ =~= zeros(32));
    ige_encrypt(with_hash.as_mut_slice(), temp_key, &zero_iv);
    let hash = sha256(with_hash.as_slice());
    let mut candidate: Vec<u8> = Vec::new();
    let mut j: usize = 0;
    while j < 32
        invariant
            j <= 32,
            candidate@.len() == j,
            forall|k: int| 0 <= k < j ==> candidate@[k] == temp_key@[k] ^ hash@[k],
        decreases 32 - j,
    {
        candidate.push(temp_key[j] ^ hash[j]);
        j += 1;
    }
    assert(candidate@ =~= xor_bytes(temp_key@, hash@));
    push_all(&mut candidate, with_hash.as_slice());
    candidate
}

/// Encrypts `data` with RSA-PAD under `key`. The first 192 random bytes
/// fill the payload up, the last 32 are the first temporary key.
pub fn encrypt_hashed(data: &[u8], key: &Key, random_bytes: &[u8; 224]) -> (out: Option<Vec<u8>>)
    requires
        data@.len() <= 144,
    ensures
        match spec_encrypt_hashed(data@, key.modulus(), key.exponent(), random_bytes@) {
            Some(v) => out is Some && out->Some_0@ == v,
            None => out is None,
        },
{
    let one: [u8; 1] = [1u8];
    proof {
        assert(one@ =~= seq![1u8]);
        lemma_be_value_single(1u8);
    }
    if !less_be(one.as_slice(), key.n.as_slice()) {
        return None;
    }
    let mut padded: Vec<u8> = Vec::new();
    push_all(&mut padded, data);
    let fill = copy_range(random_bytes.as_slice(), 0, 192 - data.len());
    push_all(&mut padded, fill.as_slice());
    assert(padded@ =~= rsa_padded(data@, random_bytes@));
    let mut temp_key: [u8; 32] = load_array::<32>(random_bytes.as_slice(), 192);
    assert(temp_key@ =~= random_bytes@.skip(192));
    let ghost key0 = temp_key@;
    let ghost n = key.n@;
    let mut found: Option<Vec<u8>> = None;
    loop
        invariant_except_break
            found is None,
            temp_key@.len() == 32,
            padded@.len() == 192,
            n == key.n@,
            rsa_search(padded@, key0, n, tries_left(key0)) == rsa_search(
                padded@,
                temp_key@,
                n,
                tries_left(temp_key@),
            ),
        ensures
            match rsa_search(padded@, key0, n, tries_left(key0)) {
                Some(c) => found is Some && found->Some_0@ == c,
                None => found is None,
            },
        decreases tries_left(temp_key@),
    {
        let candidate = make_candidate(&padded, &temp_key);
        proof {
            lemma_be_value_bound(temp_key@);
        }
        if less_be(candidate.as_slice(), key.n.as_slice()) {
            found = Some(candidate);
            break ;
        }
        let ghost before = temp_key@;
        let wrapped = increment(&mut temp_key);
        if wrapped {
            break ;
        }
        proof {
            lemma_increment_value(before);
        }
    }
    match found {
        None => None,
        Some(candidate) => {
            let block = modpow_be(candidate.as_slice(), key.e.as_slice(), key.n.as_slice());
            if block.len() >= 256 {
                return Some(block);
            }
            let mut out: Vec<u8> = Vec::new();
            out.resize(256 - block.len(), 0u8);
            assert(out@ =~= zeros(256 - block@.len()));
            push_all(&mut out, block.as_slice());
            Some(out)
        },
    }
}

} // verus!

//! AES-256 in infinite garble extension (IGE) mode.
//!
//! Every block is XORed with the previous ciphertext block before the block
//! cipher and with the previous plaintext block after it. The 32-byte
//! initialisation vector supplies both "previous" blocks for the first one.

use vstd::prelude::*;
use aes::cipher::generic_array::GenericArray;
use aes::cipher::{BlockDecrypt, BlockEncrypt, KeyInit};
use aes::Aes256;

verus! {

/// The AES-256 encryption of one 16-byte block under a 32-byte key.
pub uninterp spec fn spec_aes256_encrypt(key: Seq<u8>, block: Seq<u8>) -> Seq<u8>;

/// The AES-256 decryption of one 16-byte block under a 32-byte key.
pub uninterp spec fn spec_aes256_decrypt(key: Seq<u8>, block: Seq<u8>) -> Seq<u8>;

/// `Aes256::encrypt_block` of the `aes` crate, on a copy of `block`: the
/// encrypted block, which the same key decrypts to `block`.
#[verifier::external_body]
fn aes256_encrypt_block(key: &[u8; 32], block: &[u8; 16]) -> (out: [u8; 16])
    ensures
        out@ == spec_aes256_encrypt(key@, block@),
        spec_aes256_decrypt(key@, out@) == block@,
{
    let cipher = Aes256::new(GenericArray::from_slice(key));
    let mut b = GenericArray::clone_from_slice(block);
    cipher.encrypt_block(&mut b);
    b.into()
}

/// `Aes256::decrypt_block` of the `aes` crate, on a copy of `block`: the
/// decrypted block, which the same key encrypts to `block`.
#[verifier::external_body]
fn aes256_decrypt_block(key: &[u8; 32], block: &[u8; 16]) -> (out: [u8; 16])
    ensures
        out@ == spec_aes256_decrypt(key@, block@),
        spec_aes256_encrypt(key@, out@) == block@,
{
    let cipher = Aes256::new(GenericArray::from_slice(key));
    let mut b = GenericArray::clone_from_slice(block);
    cipher.decrypt_block(&mut b);
    b.into()
}

/// Bytewise XOR of two 16-byte blocks.
pub open spec fn xor16(a: Seq<u8>, b: Seq<u8>) -> Seq<u8> {
    Seq::new(16, |i: int| a[i] ^ b[i])
}

/// The IGE encryption of the whole blocks of `data`, given the previous
/// ciphertext block `c_prev` and the previous plaintext block `p_prev`.
pub open spec fn ige_encrypt_from(key: Seq<u8>, c_prev: Seq<u8>, p_prev: Seq<u8>, data: Seq<u8>) -> Seq<
    u8,
>
    decreases data.len(),
{
    if data.len() < 16 {
        Seq::empty()
    } else {
        let p = data.take(16);
        let c = xor16(spec_aes256_encrypt(key, xor16(p, c_prev)), p_prev);
        c + ige_encrypt_from(key, c, p, data.skip(16))
    }
}

/// The IGE decryption of the whole blocks of `data`, given the previous
/// ciphertext block `c_prev` and the previous plaintext block `p_prev`.
pub open spec fn ige_decrypt_from(key: Seq<u8>, c_prev: Seq<u8>, p_prev: Seq<u8>, data: Seq<u8>) -> Seq<
    u8,
>
    decreases data.len(),
{
    if data.len() < 16 {
        Seq::empty()
    } else {
        let c = data.take(16);
        let p = xor16(spec_aes256_decrypt(key, xor16(c, p_prev)), c_prev);
        p + ige_decrypt_from(key, c, p, data.skip(16))
    }
}

/// AES-256-IGE encryption of `data` under `key` with the 32-byte `iv`.
pub open spec fn spec_ige_encrypt(key: Seq<u8>, iv: Seq<u8>, data: Seq<u8>) -> Seq<u8> {
    ige_encrypt_from(key, iv.take(16), iv.skip(16), data)
}

/// AES-256-IGE decryption of `data` under `key` with the 32-byte `iv`.
pub open spec fn spec_ige_decrypt(key: Seq<u8>, iv: Seq<u8>, data: Seq<u8>) -> Seq<u8> {
    ige_decrypt_from(key, iv.take(16), iv.skip(16), data)
}

/// Under `key`, encryption maps blocks to blocks and decryption gives the
/// block back.
pub open spec fn cipher_inverts(key: Seq<u8>) -> bool {
    forall|b: Seq<u8>|
        b.len() == 16 ==> (#[trigger] spec_aes256_encrypt(key, b)).len() == 16
            && spec_aes256_decrypt(key, spec_aes256_encrypt(key, b)) == b
}

/// XOR with the same block twice changes nothing.
pub proof fn lemma_xor16_twice(a: Seq<u8>, b: Seq<u8>)
    requires
        a.len() == 16,
        b.len() == 16,
    ensures
        xor16(xor16(a, b), b) == a,
        xor16(a, b).len() == 16,
{
    assert forall|i: int| 0 <= i < 16 implies (a[i] ^ b[i]) ^ b[i] == a[i] by {
        let x = a[i];
        let y = b[i];
        assert((x ^ y) ^ y == x) by (bit_vector);
    }
    assert(xor16(xor16(a, b), b) =~= a);
}

/// IGE encryption keeps the length of block-aligned data.
pub proof fn lemma_ige_encrypt_len(key: Seq<u8>, c_prev: Seq<u8>, p_prev: Seq<u8>, data: Seq<u8>)
    requires
        data.len() % 16 == 0,
    ensures
        ige_encrypt_from(key, c_prev, p_prev, data).len() == data.len(),
    decreases data.len(),
{
    if data.len() >= 16 {
        let p = data.take(16);
        let c = xor16(spec_aes256_encrypt(key, xor16(p, c_prev)), p_prev);
        lemma_ige_encrypt_len(key, c, p, data.skip(16));
    }
}

/// IGE decryption keeps the length of block-aligned data.
pub proof fn lemma_ige_decrypt_len(key: Seq<u8>, c_prev: Seq<u8>, p_prev: Seq<u8>, data: Seq<u8>)
    requires
        data.len() % 16 == 0,
    ensures
        ige_decrypt_from(key, c_prev, p_prev, data).len() == data.len(),
    decreases data.len(),
{
    if data.len() >= 16 {
        let c = data.take(16);
        let p = xor16(spec_aes256_decrypt(key, xor16(c, p_prev)), c_prev);
        lemma_ige_decrypt_len(key, c, p, data.skip(16));
    }
}

/// Where the block cipher's decryption inverts its encryption, IGE
/// decryption inverts IGE encryption.
pub proof fn lemma_ige_inverts(key: Seq<u8>, c_prev: Seq<u8>, p_prev: Seq<u8>, data: Seq<u8>)
    requires
        cipher_inverts(key),
        c_prev.len() == 16,
        p_prev.len() == 16,
        data.len() % 16 == 0,
    ensures
        ige_decrypt_from(key, c_prev, p_prev, ige_encrypt_from(key, c_prev, p_prev, data)) == data,
    decreases data.len(),
{
    let enc = ige_encrypt_from(key, c_prev, p_prev, data);
    lemma_ige_encrypt_len(key, c_prev, p_prev, data);
    if data.len() < 16 {
        assert(data =~= Seq::<u8>::empty());
    } else {
        let p = data.take(16);
        let mixed = xor16(p, c_prev);
        let e = spec_aes256_encrypt(key, mixed);
        let c = xor16(e, p_prev);
        let rest = ige_encrypt_from(key, c, p, data.skip(16));
        lemma_ige_encrypt_len(key, c, p, data.skip(16));
        assert(enc.take(16) =~= c);
        assert(enc.skip(16) =~= rest);
        lemma_xor16_twice(e, p_prev);
        lemma_xor16_twice(p, c_prev);
        lemma_ige_inverts(key, c, p, data.skip(16));
        assert(data =~= p + data.skip(16));
    }
}

/// Every block that the IGE encryption of `data` makes, the block cipher
/// turns back: it is 16 bytes long and decrypts to what was encrypted.
pub open spec fn ige_blocks_invert(key: Seq<u8>, c_prev: Seq<u8>, p_prev: Seq<u8>, data: Seq<u8>) -> bool
    decreases data.len(),
{
    if data.len() < 16 {
        true
    } else {
        let p = data.take(16);
        let mixed = xor16(p, c_prev);
        let e = spec_aes256_encrypt(key, mixed);
        &&& e.len() == 16
        &&& spec_aes256_decrypt(key, e) == mixed
        &&& ige_blocks_invert(key, xor16(e, p_prev), p, data.skip(16))
    }
}

/// Where the block cipher turns back every block that an encryption made,
/// IGE decryption turns back that encryption.
pub proof fn lemma_ige_inverts_blocks(key: Seq<u8>, c_prev: Seq<u8>, p_prev: Seq<u8>, data: Seq<u8>)
    requires
        ige_blocks_invert(key, c_prev, p_prev, data),
        c_prev.len() == 16,
        p_prev.len() == 16,
        data.len() % 16 == 0,
    ensures
        ige_decrypt_from(key, c_prev, p_prev, ige_encrypt_from(key, c_prev, p_prev, data)) == data,
    decreases data.len(),
{
    let enc = ige_encrypt_from(key, c_prev, p_prev, data);
    lemma_ige_encrypt_len(key, c_prev, p_prev, data);
    if data.len() < 16 {
        assert(data =~= Seq::<u8>::empty());
    } else {
        let p = data.take(16);
        let mixed = xor16(p, c_prev);
        let e = spec_aes256_encrypt(key, mixed);
        let c = xor16(e, p_prev);
        let rest = ige_encrypt_from(key, c, p, data.skip(16));
        lemma_ige_encrypt_len(key, c, p, data.skip(16));
        assert(enc.take(16) =~= c);
        assert(enc.skip(16) =~= rest);
        lemma_xor16_twice(e, p_prev);
        lemma_xor16_twice(p, c_prev);
        lemma_ige_inverts_blocks(key, c, p, data.skip(16));
        assert(data =~= p + data.skip(16));
    }
}

/// The 16 bytes of `data` that start at `at`.
pub fn load16(data: &[u8], at: usize) -> (out: [u8; 16])
    requires
        at + 16 <= data@.len(),
    ensures
        out@ == data@.subrange(at as int, at + 16),
{
    let mut out = [0u8; 16];
    let total = data.len();
    let mut i: usize = 0;
    while i < 16
        invariant
            i <= 16,
            at + 16 <= total,
            total == data@.len(),
            forall|k: int| 0 <= k < i ==> out@[k] == data@[at + k],
        decreases 16 - i,
    {
        out[i] = data[at + i];
        i += 1;
    }
    assert(out@ =~= data@.subrange(at as int, at + 16));
    out
}

/// Overwrites the 16 bytes of `buffer` that start at `at` with `block`.
pub fn store16(buffer: &mut [u8], at: usize, block: &[u8; 16])
    requires
        at + 16 <= old(buffer)@.len(),
    ensures
        final(buffer)@ == old(buffer)@.take(at as int) + block@ + old(buffer)@.skip(at + 16),
{
    let total = buffer.len();
    let mut i: usize = 0;
    while i < 16
        invariant
            i <= 16,
            at + 16 <= total,
            total == buffer@.len(),
            buffer@.len() == old(buffer)@.len(),
            forall|k: int| 0 <= k < at ==> buffer@[k] == old(buffer)@[k],
            forall|k: int| at + 16 <= k < buffer@.len() ==> buffer@[k] == old(buffer)@[k],
            forall|k: int| 0 <= k < i ==> buffer@[at + k] == block@[k],
        decreases 16 - i,
    {
        buffer[at + i] = block[i];
        i += 1;
    }
    assert(buffer@ =~= old(buffer)@.take(at as int) + block@ + old(buffer)@.skip(at + 16));
}

/// Bytewise XOR of two blocks.
pub fn xor_blocks(a: &[u8; 16], b: &[u8; 16]) -> (out: [u8; 16])
    ensures
        out@ == xor16(a@, b@),
{
    let mut out = [0u8; 16];
    let mut i: usize = 0;
    while i < 16
        invariant
            i <= 16,
            forall|k: int| 0 <= k < i ==> out@[k] == a@[k] ^ b@[k],
        decreases 16 - i,
    {
        out[i] = a[i] ^ b[i];
        i += 1;
    }
    assert(out@ =~= xor16(a@, b@));
    out
}

/// Encrypts `buffer` in place with AES-256-IGE.
pub fn ige_encrypt(buffer: &mut [u8], key: &[u8; 32], iv: &[u8; 32])
    requires
        old(buffer)@.len() % 16 == 0,
    ensures
        final(buffer)@ == spec_ige_encrypt(key@, iv@, old(buffer)@),
        final(buffer)@.len() == old(buffer)@.len(),
        ige_blocks_invert(key@, iv@.take(16), iv@.skip(16), old(buffer)@),
{
    let n = buffer.len();
    let mut c_prev = load16(iv.as_slice(), 0);
    let mut p_prev = load16(iv.as_slice(), 16);
    assert(c_prev@ =~= iv@.take(16));
    assert(p_prev@ =~= iv@.skip(16));
    let mut at: usize = 0;
    assert(buffer@.skip(0) =~= buffer@);
    assert(buffer@.take(0) + ige_encrypt_from(key@, c_prev@, p_prev@, buffer@.skip(0))
        =~= spec_ige_encrypt(key@, iv@, old(buffer)@));
    while at < n
        invariant
            at <= n,
            at % 16 == 0,
            n % 16 == 0,
            n == buffer@.len(),
            n == old(buffer)@.len(),
            ige_blocks_invert(key@, c_prev@, p_prev@, old(buffer)@.skip(at as int))
                ==> ige_blocks_invert(key@, iv@.take(16), iv@.skip(16), old(buffer)@),
            buffer@.skip(at as int) == old(buffer)@.skip(at as int),
            spec_ige_encrypt(key@, iv@, old(buffer)@) == buffer@.take(at as int) + ige_encrypt_from(
                key@,
                c_prev@,
                p_prev@,
                old(buffer)@.skip(at as int),
            ),
        decreases n - at,
    {
        let ghost before = buffer@;
        let ghost tail = old(buffer)@.skip(at as int);
        let p = load16(buffer, at);
        assert(p@ =~= tail.take(16));
        let mixed = xor_blocks(&p, &c_prev);
        let e = aes256_encrypt_block(key, &mixed);
        let c = xor_blocks(&e, &p_prev);
        store16(buffer, at, &c);
        proof {
            assert(tail.skip(16) =~= old(buffer)@.skip(at + 16));
            assert(buffer@.skip(at + 16) =~= old(buffer)@.skip(at + 16));
            assert(buffer@.take(at + 16) =~= before.take(at as int) + c@);
        }
        c_prev = c;
        p_prev = p;
        at += 16;
    }
    assert(buffer@.take(n as int) =~= buffer@);
    assert(buffer@ + Seq::<u8>::empty() =~= buffer@);
}

/// Decrypts `buffer` in place with AES-256-IGE.
pub fn ige_decrypt(buffer: &mut [u8], key: &[u8; 32], iv: &[u8; 32])
    requires
        old(buffer)@.len() % 16 == 0,
    ensures
        final(buffer)@ == spec_ige_decrypt(key@, iv@, old(buffer)@),
        final(buffer)@.len() == old(buffer)@.len(),
{
    let n = buffer.len();
    let mut c_prev = load16(iv.as_slice(), 0);
    let mut p_prev = load16(iv.as_slice(), 16);
    assert(c_prev@ =~= iv@.take(16));
    assert(p_prev@ =~= iv@.skip(16));
    let mut at: usize = 0;
    assert(buffer@.skip(0) =~= buffer@);
    assert(buffer@.take(0) + ige_decrypt_from(key@, c_prev@, p_prev@, buffer@.skip(0))
        =~= spec_ige_decrypt(key@, iv@, old(buffer)@));
    while at < n
        invariant
            at <= n,
            at % 16 == 0,
            n % 16 == 0,
            n == buffer@.len(),
            n == old(buffer)@.len(),
            buffer@.skip(at as int) == old(buffer)@.skip(at as int),
            spec_ige_decrypt(key@, iv@, old(buffer)@) == buffer@.take(at as int) + ige_decrypt_from(
                key@,
                c_prev@,
                p_prev@,
                old(buffer)@.skip(at as int),
            ),
        decreases n - at,
    {
        let ghost before = buffer@;
        let ghost tail = old(buffer)@.skip(at as int);
        let c = load16(buffer, at);
        assert(c@ =~= tail.take(16));
        let mixed = xor_blocks(&c, &p_prev);
        let d = aes256_decrypt_block(key, &mixed);
        let p = xor_blocks(&d, &c_prev);
        store16(buffer, at, &p);
        proof {
            assert(tail.skip(16) =~= old(buffer)@.skip(at + 16));
            assert(buffer@.skip(at + 16) =~= old(buffer)@.skip(at + 16));
            assert(buffer@.take(at + 16) =~= before.take(at as int) + p@);
        }
        c_prev = c;
        p_prev = p;
        at += 16;
    }
    assert(buffer@.take(n as int) =~= buffer@);
    assert(buffer@ + Seq::<u8>::empty() =~= buffer@);
}

} // verus!

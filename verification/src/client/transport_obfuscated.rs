//! The obfuscated framing: abridged frames under a rolling XOR keystream
//! that both sides derive from the 64 bytes that open the connection.

use vstd::prelude::*;
use crate::crypto::sha::{sha256, spec_sha256};
use crate::tl::wire::{copy_range, load_array, push_all};

verus! {

/// The keystream after `blocks` rounds: each round appends the SHA-256
/// digest of key, IV and the stream so far.
pub open spec fn keystream(key: Seq<u8>, iv: Seq<u8>, blocks: nat) -> Seq<u8>
    decreases blocks,
{
    if blocks == 0 {
        Seq::empty()
    } else {
        let prev = keystream(key, iv, (blocks - 1) as nat);
        prev + spec_sha256(key + iv + prev)
    }
}

/// The keystream only grows: what fewer rounds give stands at the start
/// of what more rounds give.
pub proof fn lemma_keystream_prefix(key: Seq<u8>, iv: Seq<u8>, a: nat, b: nat)
    requires
        a <= b,
    ensures
        keystream(key, iv, a).len() <= keystream(key, iv, b).len(),
        keystream(key, iv, b).take(keystream(key, iv, a).len() as int) == keystream(key, iv, a),
    decreases b - a,
{
    if a == b {
        assert(keystream(key, iv, b).take(keystream(key, iv, a).len() as int) =~= keystream(
            key,
            iv,
            a,
        ));
    } else {
        lemma_keystream_prefix(key, iv, a, (b - 1) as nat);
        let prev = keystream(key, iv, (b - 1) as nat);
        assert(keystream(key, iv, b) == prev + spec_sha256(key + iv + prev));
        assert(keystream(key, iv, b).take(keystream(key, iv, a).len() as int) =~= prev.take(
            keystream(key, iv, a).len() as int,
        ));
    }
}

/// XOR with the same byte twice gives the byte back.
pub proof fn lemma_xor_restores(m: u8, k: u8)
    ensures
        (m ^ k) ^ k == m,
{
    assert((m ^ k) ^ k == m) by (bit_vector);
}

/// A keystream and the place in it where the next byte is taken.
pub struct ObfCipher {
    key: [u8; 32],
    iv: [u8; 16],
    buf: Vec<u8>,
    pos: usize,
    rounds: Ghost<nat>,
}

impl ObfCipher {
    /// The stream held so far is the keystream of the rounds made, and the
    /// place lies within it.
    pub closed spec fn wf(self) -> bool {
        &&& self.buf@ == keystream(self.key@, self.iv@, self.rounds@)
        &&& self.pos <= self.buf@.len()
    }

    /// The key.
    pub closed spec fn key(self) -> Seq<u8> {
        self.key@
    }

    /// The IV.
    pub closed spec fn iv(self) -> Seq<u8> {
        self.iv@
    }

    /// The keystream made so far.
    pub closed spec fn stream(self) -> Seq<u8> {
        self.buf@
    }

    /// How many rounds have been made.
    pub closed spec fn rounds(self) -> nat {
        self.rounds@
    }

    /// How many bytes of the stream have been used.
    pub closed spec fn used(self) -> nat {
        self.pos as nat
    }

    /// The stream made so far is the keystream of its rounds.
    pub proof fn lemma_stream(self)
        requires
            self.wf(),
        ensures
            self.stream() == keystream(self.key(), self.iv(), self.rounds()),
            self.used() <= self.stream().len(),
    {
    }

    /// The byte of the keystream at a place depends on key, IV and the
    /// place alone: two ciphers of one key and IV hold the same byte there,
    /// however far each has got and in whatever pieces it was used. So what
    /// one cipher has made of a text, piece by piece, another of the same key
    /// and IV turns back, whatever the pieces: `apply` XORs the byte at the
    /// place `used() + i` of the text with the byte at that place of the
    /// stream, and `lemma_xor_restores` gives the text back.
    pub proof fn lemma_same_keystream(self, other: Self, i: int)
        requires
            self.wf(),
            other.wf(),
            self.key() == other.key(),
            self.iv() == other.iv(),
            0 <= i < self.stream().len(),
            i < other.stream().len(),
        ensures
            self.stream()[i] == other.stream()[i],
    {
        let key = self.key@;
        let iv = self.iv@;
        if self.rounds@ <= other.rounds@ {
            lemma_keystream_prefix(key, iv, self.rounds@, other.rounds@);
            assert(other.buf@.take(self.buf@.len() as int)[i] == other.buf@[i]);
        } else {
            lemma_keystream_prefix(key, iv, other.rounds@, self.rounds@);
            assert(self.buf@.take(other.buf@.len() as int)[i] == self.buf@[i]);
        }
    }

    /// A cipher at the start of the keystream of `key` and `iv`.
    pub fn new(key: [u8; 32], iv: [u8; 16]) -> (c: Self)
        ensures
            c.wf(),
            c.key() == key@,
            c.iv() == iv@,
            c.rounds() == 0,
            c.used() == 0,
    {
        Self { key, iv, buf: Vec::new(), pos: 0, rounds: Ghost(0) }
    }

    /// Makes one more round of the keystream, which grows by 32 bytes.
    pub fn fill(&mut self)
        requires
            old(self).wf(),
        ensures
            final(self).wf(),
            final(self).key() == old(self).key(),
            final(self).iv() == old(self).iv(),
            final(self).used() == old(self).used(),
            final(self).rounds() == old(self).rounds() + 1,
            final(self).stream().len() == old(self).stream().len() + 32,
            final(self).stream().take(old(self).stream().len() as int) == old(self).stream(),
    {
        let mut input: Vec<u8> = Vec::new();
        push_all(&mut input, self.key.as_slice());
        push_all(&mut input, self.iv.as_slice());
        push_all(&mut input, self.buf.as_slice());
        let block = sha256(input.as_slice());
        let mut grown = copy_range(self.buf.as_slice(), 0, self.buf.len());
        assert(grown@ =~= self.buf@);
        push_all(&mut grown, block.as_slice());
        self.buf = grown;
        self.rounds = Ghost((self.rounds@ + 1) as nat);
        assert(self.buf@.take(old(self).buf@.len() as int) =~= old(self).buf@);
    }

    /// XORs `data` in place with the next bytes of the keystream, making
    /// more of it as needed.
    pub fn apply(&mut self, data: &mut [u8])
        requires
            old(self).wf(),
        ensures
            final(self).wf(),
            final(self).key() == old(self).key(),
            final(self).iv() == old(self).iv(),
            final(self).used() == old(self).used() + old(data)@.len(),
            final(self).rounds() >= old(self).rounds(),
            final(self).stream().take(old(self).stream().len() as int) == old(self).stream(),
            final(data)@.len() == old(data)@.len(),
            forall|i: int|
                0 <= i < old(data)@.len() ==> #[trigger] final(data)@[i] == old(data)@[i] ^ final(self).stream()[old(self).used() + i],
    {
        let n = data.len();
        let mut i: usize = 0;
        while i < n
            invariant
                i <= n,
                n == data@.len(),
                n == old(data)@.len(),
                self.wf(),
                self.key() == old(self).key(),
                self.iv() == old(self).iv(),
                self.used() == old(self).used() + i,
                self.rounds() >= old(self).rounds(),
                self.stream().len() >= old(self).stream().len(),
                self.stream().take(old(self).stream().len() as int) == old(self).stream(),
                forall|k: int| i <= k < n ==> data@[k] == old(data)@[k],
                forall|k: int|
                    0 <= k < i ==> #[trigger] data@[k] == old(data)@[k] ^ self.stream()[old(self).used() + k],
            decreases n - i,
        {
            if self.pos >= self.buf.len() {
                let ghost before = self.buf@;
                self.fill();
                assert(self.buf@.take(old(self).buf@.len() as int) =~= before.take(
                    old(self).buf@.len() as int,
                ));
                assert forall|k: int| 0 <= k < i implies #[trigger] data@[k] == old(data)@[k]
                    ^ self.stream()[old(self).used() + k] by {
                    assert(self.buf@[old(self).used() + k] == self.buf@.take(
                        before.len() as int,
                    )[old(self).used() + k]);
                }
            }
            let b = data[i];
            let total = self.buf.len();
            assert(self.pos < total);
            data[i] = b ^ self.buf[self.pos];
            self.pos = self.pos + 1;
            i += 1;
        }
    }
}

/// The key of one direction: the 32 source bytes themselves, or with a
/// secret the SHA-256 digest of the source bytes and the secret.
pub open spec fn spec_derive_key(key_src: Seq<u8>, secret: Option<Seq<u8>>) -> Seq<u8> {
    match secret {
        Some(s) => spec_sha256(key_src + s),
        None => key_src,
    }
}

/// Key and IV of one direction.
fn derive_one(key_src: &[u8], iv_src: &[u8], secret: Option<&[u8; 16]>) -> (r: ([u8; 32], [u8; 16]))
    requires
        key_src@.len() == 32,
        iv_src@.len() == 16,
    ensures
        r.0@ == spec_derive_key(
            key_src@,
            match secret {
                Some(s) => Some(s@),
                None => None,
            },
        ),
        r.1@ == iv_src@,
{
    let key: [u8; 32] = match secret {
        Some(s) => {
            let mut input: Vec<u8> = Vec::new();
            push_all(&mut input, key_src);
            push_all(&mut input, s.as_slice());
            sha256(input.as_slice())
        },
        None => {
            let k = load_array::<32>(key_src, 0);
            assert(k@ =~= key_src@);
            k
        },
    };
    let iv = load_array::<16>(iv_src, 0);
    assert(iv@ =~= iv_src@);
    (key, iv)
}

/// The four values that a 64-byte nonce gives: the encryption key from
/// bytes 8 to 40 and the encryption IV from bytes 40 to 56, and for
/// decryption the same from each range reversed.
pub open spec fn spec_derive_keys(nonce: Seq<u8>, secret: Option<Seq<u8>>) -> (
    Seq<u8>,
    Seq<u8>,
    Seq<u8>,
    Seq<u8>,
) {
    (
        spec_derive_key(nonce.subrange(8, 40), secret),
        nonce.subrange(40, 56),
        spec_derive_key(nonce.subrange(8, 40).reverse(), secret),
        nonce.subrange(40, 56).reverse(),
    )
}

/// A copy of `data` in reverse order.
fn reversed(data: &[u8]) -> (out: Vec<u8>)
    ensures
        out@ == data@.reverse(),
{
    let mut out: Vec<u8> = Vec::new();
    let n = data.len();
    let mut i: usize = n;
    while i > 0
        invariant
            i <= n,
            n == data@.len(),
            out@.len() == n - i,
            forall|k: int| 0 <= k < n - i ==> out@[k] == data@[n - 1 - k],
        decreases i,
    {
        i -= 1;
        out.push(data[i]);
    }
    assert(out@ =~= data@.reverse());
    out
}

/// Derives encryption key, encryption IV, decryption key and decryption IV
/// from the nonce that opens the connection.
pub fn derive_keys(nonce: &[u8; 64], secret: Option<&[u8; 16]>) -> (r: (
    [u8; 32],
    [u8; 16],
    [u8; 32],
    [u8; 16],
))
    ensures
        (r.0@, r.1@, r.2@, r.3@) == spec_derive_keys(
            nonce@,
            match secret {
                Some(s) => Some(s@),
                None => None,
            },
        ),
{
    let key_src = copy_range(nonce.as_slice(), 8, 40);
    let iv_src = copy_range(nonce.as_slice(), 40, 56);
    let (enc_key, enc_iv) = derive_one(key_src.as_slice(), iv_src.as_slice(), secret);
    let key_rev = reversed(key_src.as_slice());
    let iv_rev = reversed(iv_src.as_slice());
    let (dec_key, dec_iv) = derive_one(key_rev.as_slice(), iv_rev.as_slice(), secret);
    (enc_key, enc_iv, dec_key, dec_iv)
}

/// The nonce with the tag of the abridged framing in bytes 56 to 60.
pub open spec fn spec_tagged(nonce: Seq<u8>) -> Seq<u8> {
    nonce.take(56) + seq![0xefu8, 0xefu8, 0xefu8, 0xefu8] + nonce.skip(60)
}

/// What opens an obfuscated connection: the 64 bytes to send, which are
/// the tagged nonce with its last 8 bytes under the keystream, and the
/// ciphers for both directions. The encrypting cipher has used 8 bytes.
pub fn handshake(nonce: &[u8; 64], secret: Option<&[u8; 16]>) -> (r: (Vec<u8>, ObfCipher, ObfCipher))
    ensures
        r.1.wf(),
        r.2.wf(),
        r.1.key() == spec_derive_keys(spec_tagged(nonce@), opt_view(secret)).0,
        r.1.iv() == spec_derive_keys(spec_tagged(nonce@), opt_view(secret)).1,
        r.2.key() == spec_derive_keys(spec_tagged(nonce@), opt_view(secret)).2,
        r.2.iv() == spec_derive_keys(spec_tagged(nonce@), opt_view(secret)).3,
        r.1.used() == 8,
        r.2.used() == 0,
        r.0@.len() == 64,
        r.0@.take(56) == nonce@.take(56),
        forall|i: int|
            56 <= i < 64 ==> #[trigger] r.0@[i] == spec_tagged(nonce@)[i] ^ r.1.stream()[i - 56],
{
    let mut tagged = *nonce;
    tagged[56] = 0xef;
    tagged[57] = 0xef;
    tagged[58] = 0xef;
    tagged[59] = 0xef;
    assert(tagged@ =~= spec_tagged(nonce@));
    let (enc_key, enc_iv, dec_key, dec_iv) = derive_keys(&tagged, secret);
    let mut enc = ObfCipher::new(enc_key, enc_iv);
    let dec = ObfCipher::new(dec_key, dec_iv);
    let mut tail = copy_range(tagged.as_slice(), 56, 64);
    enc.apply(tail.as_mut_slice());
    let mut header = copy_range(tagged.as_slice(), 0, 56);
    assert(header@ =~= nonce@.take(56));
    push_all(&mut header, tail.as_slice());
    assert(header@.take(56) =~= nonce@.take(56));
    (header, enc, dec)
}

/// The bytes of an optional secret.
pub open spec fn opt_view(secret: Option<&[u8; 16]>) -> Option<Seq<u8>> {
    match secret {
        Some(s) => Some(s@),
        None => None,
    }
}

} // verus!

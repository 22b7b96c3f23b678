//! The cryptographic kit: digests, AES-256-IGE, big-integer helpers, RSA-PAD,
//! factorization, the authorization key and MTProto 2.0 message encryption.

use vstd::prelude::*;

pub mod aes;
pub mod auth_key;
pub mod bigint;
pub mod deque_buffer;
pub mod factorize;
pub mod random;
pub mod rsa;
pub mod sha;

pub use auth_key::AuthKey;
pub use deque_buffer::DequeBuffer;
pub use factorize::factorize;

use crate::crypto::aes::{
    cipher_inverts, ige_decrypt, ige_encrypt, lemma_ige_encrypt_len, lemma_ige_inverts,
    spec_ige_decrypt, spec_ige_encrypt,
};
use crate::crypto::auth_key::spec_key_id;
use crate::crypto::random::{random_array, RandomUnavailable};
use crate::crypto::sha::{sha1, sha256, spec_sha1, spec_sha256};
use crate::tl::wire::{bytes_eq, copy_range, load_array, push_all};

verus! {

/// Why an incoming frame could not be decrypted.
#[derive(Clone, Copy, Debug, PartialEq, Eq, Structural)]
pub enum DecryptError {
    /// The frame is shorter than its header or its ciphertext is not a whole
    /// number of blocks.
    InvalidBuffer,
    /// The key identifier in the frame is not that of our key.
    AuthKeyMismatch,
    /// The message key in the frame is not the one the plaintext gives.
    MessageKeyMismatch,
}

impl DecryptError {
    /// The error in words.
    pub open spec fn text(self) -> Seq<char> {
        match self {
            DecryptError::InvalidBuffer => "invalid ciphertext buffer length"@,
            DecryptError::AuthKeyMismatch => "auth_key_id mismatch"@,
            DecryptError::MessageKeyMismatch => "msg_key mismatch"@,
        }
    }

    /// A description of the error.
    pub fn to_string(&self) -> (s: String)
        ensures
            s@ == self.text(),
    {
        match self {
            DecryptError::InvalidBuffer => crate::text::text_of("invalid ciphertext buffer length"),
            DecryptError::AuthKeyMismatch => crate::text::text_of("auth_key_id mismatch"),
            DecryptError::MessageKeyMismatch => crate::text::text_of("msg_key mismatch"),
        }
    }
}

/// Which end of the connection made a message: it decides which part of the
/// authorization key goes into the message's keys.
#[derive(Clone, Copy, Debug, PartialEq, Eq, Structural)]
pub enum Side {
    Client,
    Server,
}

impl Side {
    /// The offset into the authorization key.
    pub open spec fn spec_x(self) -> int {
        match self {
            Side::Client => 0,
            Side::Server => 8,
        }
    }

    /// The offset into the authorization key.
    pub fn x(&self) -> (x: usize)
        ensures
            x == self.spec_x(),
    {
        match self {
            Side::Client => 0,
            Side::Server => 8,
        }
    }
}

/// The AES key and IV of a message, from its message key and the
/// authorization key: two SHA-256 digests, interleaved.
pub open spec fn spec_calc_key(auth_key: Seq<u8>, msg_key: Seq<u8>, x: int) -> (Seq<u8>, Seq<u8>) {
    let sha_a = spec_sha256(msg_key + auth_key.subrange(x, x + 36));
    let sha_b = spec_sha256(auth_key.subrange(40 + x, 40 + x + 36) + msg_key);
    (
        sha_a.subrange(0, 8) + sha_b.subrange(8, 24) + sha_a.subrange(24, 32),
        sha_b.subrange(0, 8) + sha_a.subrange(8, 24) + sha_b.subrange(24, 32),
    )
}

/// The message key of a padded plaintext: the middle 16 bytes of the
/// SHA-256 digest of 32 bytes of the authorization key and the plaintext.
pub open spec fn spec_msg_key(auth_key: Seq<u8>, x: int, padded: Seq<u8>) -> Seq<u8> {
    spec_sha256(auth_key.subrange(88 + x, 88 + x + 32) + padded).subrange(8, 24)
}

/// Number of padding bytes behind a plaintext of `len` bytes: between 17 and
/// 32, completing a whole number of blocks.
pub open spec fn spec_padding_len(len: int) -> int {
    16 + (16 - len % 16)
}

/// The frame that carries the padded plaintext `padded` from `side`: key
/// identifier, message key, ciphertext.
pub open spec fn spec_encrypt_frame(auth_key: Seq<u8>, x: int, padded: Seq<u8>) -> Seq<u8> {
    let msg_key = spec_msg_key(auth_key, x, padded);
    let (key, iv) = spec_calc_key(auth_key, msg_key, x);
    spec_key_id(auth_key) + msg_key + spec_ige_encrypt(key, iv, padded)
}

/// What decrypting `frame` gives: the padded plaintext, or the reason why
/// the frame is not accepted. Incoming frames carry the server's keys.
pub open spec fn spec_decrypt_frame(auth_key: Seq<u8>, x: int, frame: Seq<u8>) -> Result<
    Seq<u8>,
    DecryptError,
> {
    if frame.len() < 24 || (frame.len() - 24) % 16 != 0 {
        Err(DecryptError::InvalidBuffer)
    } else if spec_key_id(auth_key) != frame.subrange(0, 8) {
        Err(DecryptError::AuthKeyMismatch)
    } else {
        let msg_key = frame.subrange(8, 24);
        let (key, iv) = spec_calc_key(auth_key, msg_key, x);
        let plain = spec_ige_decrypt(key, iv, frame.skip(24));
        if msg_key != spec_msg_key(auth_key, x, plain) {
            Err(DecryptError::MessageKeyMismatch)
        } else {
            Ok(plain)
        }
    }
}

/// Computes the AES key and IV of a message.
pub fn calc_key(auth_key: &AuthKey, msg_key: &[u8; 16], side: Side) -> (r: ([u8; 32], [u8; 32]))
    ensures
        (r.0@, r.1@) == spec_calc_key(auth_key.bytes(), msg_key@, side.spec_x()),
{
    let x = side.x();
    let data = auth_key.to_bytes();
    let mut a: Vec<u8> = Vec::new();
    push_all(&mut a, msg_key.as_slice());
    let part = copy_range(data.as_slice(), x, x + 36);
    push_all(&mut a, part.as_slice());
    let sha_a = sha256(a.as_slice());
    let mut b: Vec<u8> = copy_range(data.as_slice(), 40 + x, 40 + x + 36);
    push_all(&mut b, msg_key.as_slice());
    let sha_b = sha256(b.as_slice());

    let mut key: Vec<u8> = copy_range(sha_a.as_slice(), 0, 8);
    let mid = copy_range(sha_b.as_slice(), 8, 24);
    push_all(&mut key, mid.as_slice());
    let end = copy_range(sha_a.as_slice(), 24, 32);
    push_all(&mut key, end.as_slice());

    let mut iv: Vec<u8> = copy_range(sha_b.as_slice(), 0, 8);
    let mid = copy_range(sha_a.as_slice(), 8, 24);
    push_all(&mut iv, mid.as_slice());
    let end = copy_range(sha_b.as_slice(), 24, 32);
    push_all(&mut iv, end.as_slice());

    let aes_key = load_array::<32>(key.as_slice(), 0);
    let aes_iv = load_array::<32>(iv.as_slice(), 0);
    assert(aes_key@ =~= key@);
    assert(aes_iv@ =~= iv@);
    (aes_key, aes_iv)
}

/// Number of padding bytes behind a plaintext of `len` bytes.
pub fn padding_len(len: usize) -> (pad: usize)
    ensures
        pad == spec_padding_len(len as int),
        17 <= pad <= 32,
        (len + pad) % 16 == 0,
{
    16 + (16 - (len % 16))
}

/// A frame whose ciphertext the block cipher turns back block by block is
/// decrypted to the plaintext it was made of.
pub proof fn lemma_frame_inverts(auth_key: Seq<u8>, x: int, padded: Seq<u8>)
    requires
        padded.len() % 16 == 0,
        spec_key_id(auth_key).len() == 8,
        spec_msg_key(auth_key, x, padded).len() == 16,
        spec_calc_key(auth_key, spec_msg_key(auth_key, x, padded), x).1.len() == 32,
        crate::crypto::aes::ige_blocks_invert(
            spec_calc_key(auth_key, spec_msg_key(auth_key, x, padded), x).0,
            spec_calc_key(auth_key, spec_msg_key(auth_key, x, padded), x).1.take(16),
            spec_calc_key(auth_key, spec_msg_key(auth_key, x, padded), x).1.skip(16),
            padded,
        ),
    ensures
        spec_decrypt_frame(auth_key, x, spec_encrypt_frame(auth_key, x, padded)) == Ok::<
            Seq<u8>,
            DecryptError,
        >(padded),
{
    let msg_key = spec_msg_key(auth_key, x, padded);
    let (key, iv) = spec_calc_key(auth_key, msg_key, x);
    let cipher = spec_ige_encrypt(key, iv, padded);
    let frame = spec_encrypt_frame(auth_key, x, padded);
    lemma_ige_encrypt_len(key, iv.take(16), iv.skip(16), padded);
    assert(frame.subrange(0, 8) =~= spec_key_id(auth_key));
    assert(frame.subrange(8, 24) =~= msg_key);
    assert(frame.skip(24) =~= cipher);
    crate::crypto::aes::lemma_ige_inverts_blocks(key, iv.take(16), iv.skip(16), padded);
}

/// Encrypts the plaintext in `buffer` as a frame from `side`. The padding
/// is taken from the start of `rnd`. The frame is one that the other side
/// decrypts to the padded plaintext.
pub fn encrypt_frame_as(buffer: &mut DequeBuffer, auth_key: &AuthKey, rnd: &[u8; 32], side: Side)
    requires
        old(buffer).wf(),
    ensures
        final(buffer).wf(),
        final(buffer)@ == spec_encrypt_frame(
            auth_key.bytes(),
            side.spec_x(),
            old(buffer)@ + rnd@.take(spec_padding_len(old(buffer)@.len() as int)),
        ),
        spec_decrypt_frame(auth_key.bytes(), side.spec_x(), final(buffer)@) == Ok::<
            Seq<u8>,
            DecryptError,
        >(old(buffer)@ + rnd@.take(spec_padding_len(old(buffer)@.len() as int))),
{
    let pad = padding_len(buffer.len());
    let padding = copy_range(rnd.as_slice(), 0, pad);
    assert(padding@ =~= rnd@.take(pad as int));
    buffer.extend_from_slice(padding.as_slice());
    let ghost padded = buffer@;

    let x = side.x();
    let data = auth_key.to_bytes();
    let mut keyed: Vec<u8> = copy_range(data.as_slice(), 88 + x, 88 + x + 32);
    let mut plain = buffer.to_vec();
    push_all(&mut keyed, plain.as_slice());
    let large = sha256(keyed.as_slice());
    let msg_key = load_array::<16>(large.as_slice(), 8);

    let (key, iv) = calc_key(auth_key, &msg_key, side);
    ige_encrypt(plain.as_mut_slice(), &key, &iv);
    buffer.overwrite(plain.as_slice());

    buffer.extend_front(msg_key.as_slice());
    let key_id = auth_key.key_id();
    buffer.extend_front(key_id.as_slice());
    assert(buffer@ =~= spec_encrypt_frame(auth_key.bytes(), side.spec_x(), padded));
    proof {
        assert(msg_key@ =~= spec_msg_key(auth_key.bytes(), side.spec_x(), padded));
        lemma_frame_inverts(auth_key.bytes(), side.spec_x(), padded);
    }
}

/// Encrypts the plaintext in `buffer` as an outgoing frame. The padding is
/// taken from the start of `rnd`.
pub fn do_encrypt_data_v2(buffer: &mut DequeBuffer, auth_key: &AuthKey, rnd: &[u8; 32])
    requires
        old(buffer).wf(),
    ensures
        final(buffer).wf(),
        final(buffer)@ == spec_encrypt_frame(
            auth_key.bytes(),
            0,
            old(buffer)@ + rnd@.take(spec_padding_len(old(buffer)@.len() as int)),
        ),
{
    encrypt_frame_as(buffer, auth_key, rnd, Side::Client);
}

/// Encrypts the plaintext in `buffer` as an outgoing frame, with fresh
/// random padding: afterwards `buffer` holds the frame of the plaintext and
/// some padding of the right length.
///
/// Where the system gives no random bytes the buffer stays as it is and the
/// failure is handed on.
pub fn encrypt_data_v2(buffer: &mut DequeBuffer, auth_key: &AuthKey) -> (r: Result<
    (),
    RandomUnavailable,
>)
    requires
        old(buffer).wf(),
    ensures
        final(buffer).wf(),
        r is Ok ==> exists|rnd: Seq<u8>|
            rnd.len() == 32 && final(buffer)@ == spec_encrypt_frame(
                auth_key.bytes(),
                0,
                old(buffer)@ + rnd.take(spec_padding_len(old(buffer)@.len() as int)),
            ),
        r is Err ==> *final(buffer) == *old(buffer),
{
    let rnd: [u8; 32] = match random_array::<32>() {
        Ok(rnd) => rnd,
        Err(e) => {
            return Err(e);
        },
    };
    do_encrypt_data_v2(buffer, auth_key, &rnd);
    assert(rnd@.len() == 32);
    Ok(())
}

/// Decrypts an incoming frame in place and returns the padded plaintext.
/// A frame of the wrong shape or for another key is left untouched; one
/// whose message key does not fit has already been decrypted in place.
pub fn decrypt_data_v2(buffer: &mut [u8], auth_key: &AuthKey) -> (r: Result<Vec<u8>, DecryptError>)
    ensures
        final(buffer)@.len() == old(buffer)@.len(),
        match spec_decrypt_frame(auth_key.bytes(), 8, old(buffer)@) {
            Ok(plain) => r is Ok && r->Ok_0@ == plain && final(buffer)@ == old(buffer)@.take(24)
                + plain,
            Err(e) => r == Err::<Vec<u8>, DecryptError>(e) && (e != DecryptError::MessageKeyMismatch
                ==> final(buffer)@ == old(buffer)@),
        },
{
    let n = buffer.len();
    if n < 24 || (n - 24) % 16 != 0 {
        return Err(DecryptError::InvalidBuffer);
    }
    let key_id = auth_key.key_id();
    let got_id = copy_range(buffer, 0, 8);
    if !bytes_eq(key_id.as_slice(), got_id.as_slice()) {
        return Err(DecryptError::AuthKeyMismatch);
    }
    let msg_key = load_array::<16>(buffer, 8);
    let (key, iv) = calc_key(auth_key, &msg_key, Side::Server);
    let mut body = copy_range(buffer, 24, n);
    assert(body@ =~= old(buffer)@.skip(24));
    ige_decrypt(body.as_mut_slice(), &key, &iv);
    crate::tl::wire::store_slice(buffer, 24, body.as_slice());
    assert(buffer@ =~= old(buffer)@.take(24) + body@);

    let x = Side::Server.x();
    let data = auth_key.to_bytes();
    let mut keyed: Vec<u8> = copy_range(data.as_slice(), 88 + x, 88 + x + 32);
    push_all(&mut keyed, body.as_slice());
    let ours = sha256(keyed.as_slice());
    let ours_mid = copy_range(ours.as_slice(), 8, 24);
    if !bytes_eq(msg_key.as_slice(), ours_mid.as_slice()) {
        return Err(DecryptError::MessageKeyMismatch);
    }
    Ok(body)
}

/// The AES key and IV under which the server's DH parameters travel,
/// from the server's nonce and the client's new nonce.
pub open spec fn spec_key_data_from_nonce(server_nonce: Seq<u8>, new_nonce: Seq<u8>) -> (
    Seq<u8>,
    Seq<u8>,
) {
    let h1 = spec_sha1(new_nonce + server_nonce);
    let h2 = spec_sha1(server_nonce + new_nonce);
    let h3 = spec_sha1(new_nonce + new_nonce);
    (h1 + h2.subrange(0, 12), h2.subrange(12, 20) + h3 + new_nonce.subrange(0, 4))
}

/// Derives the AES key and IV under which the server's DH parameters travel.
pub fn generate_key_data_from_nonce(server_nonce: &[u8; 16], new_nonce: &[u8; 32]) -> (r: (
    [u8; 32],
    [u8; 32],
))
    ensures
        (r.0@, r.1@) == spec_key_data_from_nonce(server_nonce@, new_nonce@),
{
    let mut a: Vec<u8> = Vec::new();
    push_all(&mut a, new_nonce.as_slice());
    push_all(&mut a, server_nonce.as_slice());
    let h1 = sha1(a.as_slice());
    let mut b: Vec<u8> = Vec::new();
    push_all(&mut b, server_nonce.as_slice());
    push_all(&mut b, new_nonce.as_slice());
    let h2 = sha1(b.as_slice());
    let mut c: Vec<u8> = Vec::new();
    push_all(&mut c, new_nonce.as_slice());
    push_all(&mut c, new_nonce.as_slice());
    let h3 = sha1(c.as_slice());

    let mut key: Vec<u8> = Vec::new();
    push_all(&mut key, h1.as_slice());
    let part = copy_range(h2.as_slice(), 0, 12);
    push_all(&mut key, part.as_slice());

    let mut iv: Vec<u8> = copy_range(h2.as_slice(), 12, 20);
    push_all(&mut iv, h3.as_slice());
    let part = copy_range(new_nonce.as_slice(), 0, 4);
    push_all(&mut iv, part.as_slice());

    let k = load_array::<32>(key.as_slice(), 0);
    let v = load_array::<32>(iv.as_slice(), 0);
    assert(k@ =~= key@);
    assert(v@ =~= iv@);
    (k, v)
}

/// A frame that the other side encrypted is decrypted to the plaintext it
/// was made of, provided the block cipher's decryption inverts its
/// encryption under the message's key.
pub proof fn lemma_decrypt_inverts_encrypt(auth_key: Seq<u8>, x: int, padded: Seq<u8>)
    requires
        padded.len() % 16 == 0,
        spec_sha1(auth_key).len() == 20,
        spec_sha256(auth_key.subrange(88 + x, 88 + x + 32) + padded).len() == 32,
        cipher_inverts(
            spec_calc_key(auth_key, spec_msg_key(auth_key, x, padded), x).0,
        ),
        spec_calc_key(auth_key, spec_msg_key(auth_key, x, padded), x).1.len() == 32,
    ensures
        spec_decrypt_frame(auth_key, x, spec_encrypt_frame(auth_key, x, padded)) == Ok::<
            Seq<u8>,
            DecryptError,
        >(padded),
{
    let msg_key = spec_msg_key(auth_key, x, padded);
    let (key, iv) = spec_calc_key(auth_key, msg_key, x);
    let cipher = spec_ige_encrypt(key, iv, padded);
    let frame = spec_encrypt_frame(auth_key, x, padded);
    lemma_ige_encrypt_len(key, iv.take(16), iv.skip(16), padded);
    assert(frame.subrange(0, 8) =~= spec_key_id(auth_key));
    assert(frame.subrange(8, 24) =~= msg_key);
    assert(frame.skip(24) =~= cipher);
    lemma_ige_inverts(key, iv.take(16), iv.skip(16), padded);
}

} // verus!

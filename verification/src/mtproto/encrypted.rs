//! The encrypted session: what a connection remembers once it has a key,
//! and the packing and unpacking of MTProto 2.0 messages.

use vstd::prelude::*;
use crate::crypto::auth_key::AuthKey;
use crate::crypto::deque_buffer::DequeBuffer;
use crate::crypto::random::{random_array, RandomUnavailable};
use crate::crypto::{
    decrypt_data_v2, do_encrypt_data_v2, spec_decrypt_frame, spec_encrypt_frame, spec_padding_len,
};
use crate::mtproto::message::unix_time;
use crate::tl::wire::{
    as_i32, as_i64, copy_range, from_le32, from_le64, le32, le64, read_le32, read_le64,
};
use crate::tl::{RemoteCall, Serializable};

verus! {

/// Why an incoming frame was not accepted.
#[derive(Clone, Copy, Debug, PartialEq, Eq, Structural)]
pub enum DecryptError {
    /// The frame could not be decrypted.
    Crypto(crate::crypto::DecryptError),
    /// The plaintext is shorter than its header.
    FrameTooShort,
    /// The plaintext names another session.
    SessionMismatch,
}

impl DecryptError {
    /// The error in words.
    pub open spec fn text(self) -> Seq<char> {
        match self {
            DecryptError::Crypto(e) => "crypto: "@ + e.text(),
            DecryptError::FrameTooShort => "inner plaintext too short"@,
            DecryptError::SessionMismatch => "session_id mismatch"@,
        }
    }

    /// A description of the error.
    pub fn to_string(&self) -> (s: String)
        ensures
            s@ == self.text(),
    {
        match self {
            DecryptError::Crypto(e) => crate::text::text_of("crypto: ").concat(
                e.to_string().as_str(),
            ),
            DecryptError::FrameTooShort => crate::text::text_of("inner plaintext too short"),
            DecryptError::SessionMismatch => crate::text::text_of("session_id mismatch"),
        }
    }
}

/// What a decrypted server frame carries.
#[derive(Debug, PartialEq, Eq)]
pub struct DecryptedMessage {
    /// The salt that the server used.
    pub salt: i64,
    /// The session that the frame names.
    pub session_id: i64,
    /// The identifier of the message.
    pub msg_id: i64,
    /// The sequence number of the message.
    pub seq_no: i32,
    /// The serialized body.
    pub body: Vec<u8>,
}

/// The plaintext of a message before padding: salt, session, identifier,
/// sequence number, the body's length and the body.
pub open spec fn spec_inner_plaintext(
    salt: i64,
    session_id: i64,
    msg_id: i64,
    seq_no: i32,
    body: Seq<u8>,
) -> Seq<u8> {
    le64(salt as u64) + le64(session_id as u64) + le64(msg_id as u64) + le32(seq_no as u32) + le32(
        body.len() as u32,
    ) + body
}

/// The identifier that the clock gives at `secs` seconds and `nanos`
/// nanoseconds for a session whose clock runs `time_offset` seconds behind
/// the server's.
pub open spec fn spec_fresh_msg_id(secs: u64, nanos: u32, time_offset: i32) -> i64 {
    let server_secs = ((secs as i32).wrapping_add(time_offset)) as u64;
    ((server_secs << 32) | ((nanos as u64) << 2)) as i64
}

/// The identifier that is handed out after `last`: the clock's, unless that
/// would not be greater, in which case `last + 4`.
pub open spec fn spec_next_msg_id(last: i64, fresh: i64) -> i64 {
    if last >= fresh {
        last.wrapping_add(4)
    } else {
        fresh
    }
}

/// The fields of the header of a decrypted plaintext, and its body: as many
/// bytes as the header announces, or all that are left if that is fewer.
pub open spec fn spec_body_of(plain: Seq<u8>) -> Seq<u8> {
    let announced = from_le32(plain.skip(28)) as int;
    let left = plain.len() - 32;
    plain.subrange(
        32,
        32 + if announced < left {
            announced
        } else {
            left
        },
    )
}

/// Whether unpacking `frame` succeeds for the session `session_id` under
/// `auth_key`, and if not, why not.
pub open spec fn spec_unpack(auth_key: Seq<u8>, session_id: i64, frame: Seq<u8>) -> Result<
    Seq<u8>,
    DecryptError,
> {
    match spec_decrypt_frame(auth_key, 8, frame) {
        Err(e) => Err(DecryptError::Crypto(e)),
        Ok(plain) => if plain.len() < 32 {
            Err(DecryptError::FrameTooShort)
        } else if as_i64(from_le64(plain.skip(8))) != session_id {
            Err(DecryptError::SessionMismatch)
        } else {
            Ok(plain)
        },
    }
}

/// `m` is the message that the plaintext `plain` carries.
pub open spec fn carries(plain: Seq<u8>, m: DecryptedMessage) -> bool {
    &&& m.salt == as_i64(from_le64(plain))
    &&& m.session_id == as_i64(from_le64(plain.skip(8)))
    &&& m.msg_id == as_i64(from_le64(plain.skip(16)))
    &&& m.seq_no == as_i32(from_le32(plain.skip(24)))
    &&& m.body@ == spec_body_of(plain)
}

/// The state of a connection that has an authorization key.
pub struct EncryptedSession {
    auth_key: AuthKey,
    session_id: i64,
    sequence: i32,
    last_msg_id: i64,
    /// The server salt that goes into outgoing messages.
    pub salt: i64,
    /// Seconds that the server's clock is ahead of ours.
    pub time_offset: i32,
}

/// Reads the header of `plain` and cuts the body out.
fn read_message(plain: &Vec<u8>) -> (m: DecryptedMessage)
    requires
        plain@.len() >= 32,
    ensures
        carries(plain@, m),
{
    let data = plain.as_slice();
    let salt = #[verifier::truncate] (read_le64(data, 0) as i64);
    assert(data@.skip(0) =~= data@);
    let session_id = #[verifier::truncate] (read_le64(data, 8) as i64);
    let msg_id = #[verifier::truncate] (read_le64(data, 16) as i64);
    let seq_no = #[verifier::truncate] (read_le32(data, 24) as i32);
    let announced = read_le32(data, 28) as usize;
    let left = data.len() - 32;
    let take = if announced < left {
        announced
    } else {
        left
    };
    let body = copy_range(data, 32, 32 + take);
    DecryptedMessage { salt, session_id, msg_id, seq_no, body }
}

impl EncryptedSession {
    /// The authorization key's 256 bytes.
    pub closed spec fn key(self) -> Seq<u8> {
        self.auth_key.bytes()
    }

    /// The session's identifier.
    pub closed spec fn spec_session_id(self) -> i64 {
        self.session_id
    }

    /// The server salt that goes into outgoing messages.
    pub closed spec fn spec_salt(self) -> i64 {
        self.salt
    }

    /// Seconds that the server's clock is ahead of ours.
    pub closed spec fn spec_time_offset(self) -> i32 {
        self.time_offset
    }

    /// Number of content-related messages packed so far, modulo 2³².
    pub closed spec fn sequence(self) -> i32 {
        self.sequence
    }

    /// The identifier handed out last; zero before the first.
    pub closed spec fn last_msg_id(self) -> i64 {
        self.last_msg_id
    }

    /// A session under `auth_key` with the identifier `session_id`.
    pub fn with_session_id(auth_key: [u8; 256], first_salt: i64, time_offset: i32, session_id: i64) -> (s: Self)
        ensures
            s.key() == auth_key@,
            s.spec_session_id() == session_id,
            s.sequence() == 0,
            s.last_msg_id() == 0,
            s.spec_salt() == first_salt,
            s.spec_time_offset() == time_offset,
    {
        Self {
            auth_key: AuthKey::from_bytes(auth_key),
            session_id,
            sequence: 0,
            last_msg_id: 0,
            salt: first_salt,
            time_offset,
        }
    }

    /// A session under `auth_key` with a random identifier, or the failure
    /// of the system's random source.
    pub fn new(auth_key: [u8; 256], first_salt: i64, time_offset: i32) -> (r: Result<
        Self,
        RandomUnavailable,
    >)
        ensures
            r is Ok ==> {
                let s = r->Ok_0;
                &&& s.key() == auth_key@
                &&& s.sequence() == 0
                &&& s.last_msg_id() == 0
                &&& s.spec_salt() == first_salt
                &&& s.spec_time_offset() == time_offset
            },
    {
        let rnd: [u8; 8] = match random_array::<8>() {
            Ok(rnd) => rnd,
            Err(e) => {
                return Err(e);
            },
        };
        let session_id = #[verifier::truncate] (read_le64(rnd.as_slice(), 0) as i64);
        Ok(Self::with_session_id(auth_key, first_salt, time_offset, session_id))
    }

    /// Hands out the identifier for the time `secs`, `nanos`: the clock's,
    /// corrected by the time offset, or four more than the last one where
    /// the clock's would not be greater.
    pub fn msg_id_at(&mut self, secs: u64, nanos: u32) -> (id: i64)
        ensures
            id == spec_next_msg_id(
                old(self).last_msg_id(),
                spec_fresh_msg_id(secs, nanos, old(self).spec_time_offset()),
            ),
            final(self).last_msg_id() == id,
            old(self).last_msg_id() <= i64::MAX - 4 ==> id > old(self).last_msg_id(),
            old(self).last_msg_id() & 3 == 0 ==> id & 3 == 0,
            final(self).key() == old(self).key(),
            final(self).spec_session_id() == old(self).spec_session_id(),
            final(self).sequence() == old(self).sequence(),
            final(self).spec_salt() == old(self).spec_salt(),
            final(self).spec_time_offset() == old(self).spec_time_offset(),
    {
        let local: i32 = #[verifier::truncate] (secs as i32);
        let server_secs: u64 = #[verifier::truncate] (local.wrapping_add(self.time_offset) as u64);
        let mut id: i64 = #[verifier::truncate] (((server_secs << 32) | ((nanos as u64) << 2)) as i64);
        assert((((server_secs << 32) | ((nanos as u64) << 2)) as i64) & 3 == 0) by (bit_vector);
        if self.last_msg_id >= id {
            let last = self.last_msg_id;
            assert(last & 3 == 0 ==> last.wrapping_add(4) & 3 == 0) by {
                lemma_add4_keeps_low_bits(last);
            }
            id = self.last_msg_id.wrapping_add(4);
        }
        self.last_msg_id = id;
        id
    }

    /// The sequence number of the next content-related message: twice the
    /// count so far, plus one.
    pub fn next_seq_no(&mut self) -> (n: i32)
        ensures
            n == old(self).sequence().wrapping_mul(2).wrapping_add(1),
            final(self).sequence() == old(self).sequence().wrapping_add(1),
            final(self).key() == old(self).key(),
            final(self).spec_session_id() == old(self).spec_session_id(),
            final(self).last_msg_id() == old(self).last_msg_id(),
            final(self).spec_salt() == old(self).spec_salt(),
            final(self).spec_time_offset() == old(self).spec_time_offset(),
    {
        let n = self.sequence.wrapping_mul(2).wrapping_add(1);
        self.sequence = self.sequence.wrapping_add(1);
        n
    }

    /// Packs `body` as the next content-related message, with the clock at
    /// `secs`, `nanos` and padding from `rnd`: the encrypted frame and the
    /// message's identifier.
    pub fn pack_body(&mut self, body: &[u8], secs: u64, nanos: u32, rnd: &[u8; 32]) -> (r: (
        Vec<u8>,
        i64,
    ))
        ensures
            r.1 == spec_next_msg_id(
                old(self).last_msg_id(),
                spec_fresh_msg_id(secs, nanos, old(self).spec_time_offset()),
            ),
            r.0@ == spec_packed(*old(self), body@, r.1, rnd@),
            final(self).last_msg_id() == r.1,
            final(self).sequence() == old(self).sequence().wrapping_add(1),
            final(self).key() == old(self).key(),
            final(self).spec_session_id() == old(self).spec_session_id(),
            final(self).spec_salt() == old(self).spec_salt(),
            final(self).spec_time_offset() == old(self).spec_time_offset(),
    {
        let msg_id = self.msg_id_at(secs, nanos);
        let seq_no = self.next_seq_no();
        let hint: usize = if body.len() <= usize::MAX - 32 {
            32 + body.len()
        } else {
            body.len()
        };
        let mut buf = DequeBuffer::with_capacity(hint, 32);
        let mut head: Vec<u8> = Vec::new();
        crate::tl::wire::push_le64(&mut head, #[verifier::truncate] (self.salt as u64));
        crate::tl::wire::push_le64(&mut head, #[verifier::truncate] (self.session_id as u64));
        crate::tl::wire::push_le64(&mut head, #[verifier::truncate] (msg_id as u64));
        crate::tl::wire::push_le32(&mut head, #[verifier::truncate] (seq_no as u32));
        crate::tl::wire::push_le32(&mut head, #[verifier::truncate] (body.len() as u32));
        buf.extend_from_slice(head.as_slice());
        buf.extend_from_slice(body);
        assert(buf@ =~= spec_inner_plaintext(
            old(self).spec_salt(),
            old(self).spec_session_id(),
            msg_id,
            seq_no,
            body@,
        ));
        do_encrypt_data_v2(&mut buf, &self.auth_key, rnd);
        (buf.to_vec(), msg_id)
    }

    /// Serializes and packs `call` as the next content-related message.
    /// Where the system gives no random bytes the session stays as it is.
    pub fn pack_serializable<S: Serializable>(&mut self, call: &S) -> (r: Result<
        Vec<u8>,
        RandomUnavailable,
    >)
        ensures
            r is Ok ==> packed_now(*old(self), *final(self), S::ser(call.deep_view()), r->Ok_0@),
            r is Err ==> *final(self) == *old(self),
    {
        match self.pack_serializable_with_msg_id(call) {
            Ok(packed) => Ok(packed.0),
            Err(e) => Err(e),
        }
    }

    /// Serializes and packs `call`, and also returns the message's
    /// identifier.
    /// Where the system gives no random bytes the session stays as it is.
    pub fn pack_serializable_with_msg_id<S: Serializable>(&mut self, call: &S) -> (r: Result<
        (Vec<u8>, i64),
        RandomUnavailable,
    >)
        ensures
            r is Ok ==> packed_now(*old(self), *final(self), S::ser(call.deep_view()), r->Ok_0.0@)
                && r->Ok_0.1 == final(self).last_msg_id(),
            r is Err ==> *final(self) == *old(self),
    {
        let body = call.to_bytes();
        let rnd: [u8; 32] = match random_array::<32>() {
            Ok(rnd) => rnd,
            Err(e) => {
                return Err(e);
            },
        };
        let (secs, nanos) = unix_time();
        let r = self.pack_body(body.as_slice(), secs, nanos, &rnd);
        assert(rnd@.len() == 32);
        Ok(r)
    }

    /// Serializes and packs the request `call`, and also returns the
    /// message's identifier, under which the answer will come.
    /// Where the system gives no random bytes the session stays as it is.
    pub fn pack_with_msg_id<R: RemoteCall>(&mut self, call: &R) -> (r: Result<
        (Vec<u8>, i64),
        RandomUnavailable,
    >)
        ensures
            r is Ok ==> packed_now(*old(self), *final(self), R::ser(call.deep_view()), r->Ok_0.0@)
                && r->Ok_0.1 == final(self).last_msg_id(),
            r is Err ==> *final(self) == *old(self),
    {
        self.pack_serializable_with_msg_id(call)
    }

    /// Serializes and packs the request `call`.
    /// Where the system gives no random bytes the session stays as it is.
    pub fn pack<R: RemoteCall>(&mut self, call: &R) -> (r: Result<Vec<u8>, RandomUnavailable>)
        ensures
            r is Ok ==> packed_now(*old(self), *final(self), R::ser(call.deep_view()), r->Ok_0@),
            r is Err ==> *final(self) == *old(self),
    {
        match self.pack_serializable_with_msg_id(call) {
            Ok(packed) => Ok(packed.0),
            Err(e) => Err(e),
        }
    }

    /// Decrypts a server frame and reads the message in it. The frame must
    /// carry our key's identifier, a message key that fits its plaintext, and
    /// our session's identifier.
    pub fn unpack(&self, frame: &mut Vec<u8>) -> (r: Result<DecryptedMessage, DecryptError>)
        ensures
            match spec_unpack(self.key(), self.spec_session_id(), old(frame)@) {
                Ok(plain) => r is Ok && carries(plain, r->Ok_0),
                Err(e) => r is Err && r->Err_0 == e,
            },
    {
        unpack_frame(&self.auth_key, self.session_id, frame)
    }

    /// The server salt that goes into outgoing messages.
    pub fn salt(&self) -> (s: i64)
        ensures
            s == self.spec_salt(),
    {
        self.salt
    }

    /// Seconds that the server's clock is ahead of ours.
    pub fn time_offset(&self) -> (t: i32)
        ensures
            t == self.spec_time_offset(),
    {
        self.time_offset
    }

    /// Takes note of the salt that the server used in a message to us: a
    /// salt other than zero becomes the salt of our next messages.
    pub fn observe_salt(&mut self, salt: i64)
        ensures
            final(self).spec_salt() == if salt != 0 {
                salt
            } else {
                old(self).spec_salt()
            },
            final(self).key() == old(self).key(),
            final(self).spec_session_id() == old(self).spec_session_id(),
            final(self).sequence() == old(self).sequence(),
            final(self).last_msg_id() == old(self).last_msg_id(),
            final(self).spec_time_offset() == old(self).spec_time_offset(),
    {
        if salt != 0 {
            self.salt = salt;
        }
    }

    /// The authorization key's 256 bytes.
    pub fn auth_key_bytes(&self) -> (k: [u8; 256])
        ensures
            k@ == self.key(),
    {
        self.auth_key.to_bytes()
    }

    /// The session's identifier.
    pub fn session_id(&self) -> (id: i64)
        ensures
            id == self.spec_session_id(),
    {
        self.session_id
    }

    /// Decrypts a server frame for the session `session_id` under
    /// `auth_key`, without a session at hand.
    pub fn decrypt_frame(auth_key: &[u8; 256], session_id: i64, frame: &mut Vec<u8>) -> (r: Result<
        DecryptedMessage,
        DecryptError,
    >)
        ensures
            match spec_unpack(auth_key@, session_id, old(frame)@) {
                Ok(plain) => r is Ok && carries(plain, r->Ok_0),
                Err(e) => r is Err && r->Err_0 == e,
            },
    {
        let key = AuthKey::from_bytes(*auth_key);
        unpack_frame(&key, session_id, frame)
    }
}

/// The frame of the message that `session` packs for `body` under the
/// identifier `msg_id`, padded from `rnd`.
pub open spec fn spec_packed(session: EncryptedSession, body: Seq<u8>, msg_id: i64, rnd: Seq<u8>) -> Seq<
    u8,
> {
    let plain = spec_inner_plaintext(
        session.spec_salt(),
        session.spec_session_id(),
        msg_id,
        session.sequence().wrapping_mul(2).wrapping_add(1),
        body,
    );
    spec_encrypt_frame(session.key(), 0, plain + rnd.take(spec_padding_len(plain.len() as int)))
}

/// `wire` is the frame that `before` packs for `body` at some time and with
/// some padding, and `after` is the session then.
pub open spec fn packed_now(
    before: EncryptedSession,
    after: EncryptedSession,
    body: Seq<u8>,
    wire: Seq<u8>,
) -> bool {
    &&& exists|secs: u64, nanos: u32|
        nanos < 1_000_000_000 && after.last_msg_id() == spec_next_msg_id(
            before.last_msg_id(),
            #[trigger] spec_fresh_msg_id(secs, nanos, before.spec_time_offset()),
        )
    &&& exists|rnd: Seq<u8>|
        rnd.len() == 32 && wire == #[trigger] spec_packed(before, body, after.last_msg_id(), rnd)
    &&& after.sequence() == before.sequence().wrapping_add(1)
    &&& after.key() == before.key()
    &&& after.spec_session_id() == before.spec_session_id()
    &&& after.spec_salt() == before.spec_salt()
    &&& after.spec_time_offset() == before.spec_time_offset()
}

/// Decrypts `frame` under `key` and reads the message in it.
fn unpack_frame(key: &AuthKey, session_id: i64, frame: &mut Vec<u8>) -> (r: Result<
    DecryptedMessage,
    DecryptError,
>)
    ensures
        match spec_unpack(key.bytes(), session_id, old(frame)@) {
            Ok(plain) => r is Ok && carries(plain, r->Ok_0),
            Err(e) => r is Err && r->Err_0 == e,
        },
{
    let plain = match decrypt_data_v2(frame.as_mut_slice(), key) {
        Ok(p) => p,
        Err(e) => {
            return Err(DecryptError::Crypto(e));
        },
    };
    if plain.len() < 32 {
        return Err(DecryptError::FrameTooShort);
    }
    let m = read_message(&plain);
    if m.session_id != session_id {
        return Err(DecryptError::SessionMismatch);
    }
    Ok(m)
}

/// Four more than a multiple of four is a multiple of four, also where
/// the addition wraps around.
pub proof fn lemma_add4_keeps_low_bits(last: i64)
    ensures
        last & 3 == 0 ==> last.wrapping_add(4) & 3 == 0,
{
    let next = last.wrapping_add(4);
    if last <= i64::MAX - 4 {
        assert(next == last + 4);
        assert(last & 3 == 0 ==> (last + 4) as i64 & 3 == 0) by (bit_vector)
            requires
                last <= 0x7fff_ffff_ffff_fffbi64,
        ;
    } else {
        assert(next == last + 4 - 0x1_0000_0000_0000_0000);
        assert(last & 3 == 0 ==> ((last + 4 - 0x1_0000_0000_0000_0000) as i64) & 3 == 0)
            by (bit_vector)
            requires
                last > 0x7fff_ffff_ffff_fffbi64,
        ;
    }
}

/// The digests that enter a frame have their sizes, and under the frame's
/// AES key decryption inverts encryption.
pub open spec fn frame_well_formed(auth_key: Seq<u8>, x: int, padded: Seq<u8>) -> bool {
    let msg_key = crate::crypto::spec_msg_key(auth_key, x, padded);
    let keys = crate::crypto::spec_calc_key(auth_key, msg_key, x);
    &&& crate::crypto::sha::spec_sha1(auth_key).len() == 20
    &&& crate::crypto::sha::spec_sha256(auth_key.subrange(88 + x, 88 + x + 32) + padded).len()
        == 32
    &&& keys.1.len() == 32
    &&& crate::crypto::aes::cipher_inverts(keys.0)
}

/// A frame that the server made for our session is unpacked to the message
/// that the server put in: salt, identifier, sequence number and body come
/// out as they went in. The same frame is refused with `SessionMismatch` by
/// every other session under the key.
pub proof fn lemma_unpack_recovers(
    auth_key: Seq<u8>,
    salt: i64,
    session_id: i64,
    msg_id: i64,
    seq_no: i32,
    body: Seq<u8>,
    padding: Seq<u8>,
    other_session: i64,
)
    requires
        body.len() <= u32::MAX,
        (32 + body.len() + padding.len()) % 16 == 0,
        frame_well_formed(
            auth_key,
            8,
            spec_inner_plaintext(salt, session_id, msg_id, seq_no, body) + padding,
        ),
        other_session != session_id,
    ensures
        ({
            let plain = spec_inner_plaintext(salt, session_id, msg_id, seq_no, body) + padding;
            let frame = spec_encrypt_frame(auth_key, 8, plain);
            &&& spec_unpack(auth_key, session_id, frame) == Ok::<Seq<u8>, DecryptError>(plain)
            &&& as_i64(from_le64(plain)) == salt
            &&& as_i64(from_le64(plain.skip(8))) == session_id
            &&& as_i64(from_le64(plain.skip(16))) == msg_id
            &&& as_i32(from_le32(plain.skip(24))) == seq_no
            &&& spec_body_of(plain) == body
            &&& spec_unpack(auth_key, other_session, frame) == Err::<Seq<u8>, DecryptError>(
                DecryptError::SessionMismatch,
            )
        }),
{
    let inner = spec_inner_plaintext(salt, session_id, msg_id, seq_no, body);
    let plain = inner + padding;
    crate::crypto::lemma_decrypt_inverts_encrypt(auth_key, 8, plain);
    lemma_plain_fields(salt, session_id, msg_id, seq_no, body, padding);
}

/// What went into a plaintext is read out of it again: salt, session,
/// identifier, sequence number and body, whatever padding follows.
pub proof fn lemma_plain_fields(
    salt: i64,
    session_id: i64,
    msg_id: i64,
    seq_no: i32,
    body: Seq<u8>,
    padding: Seq<u8>,
)
    requires
        body.len() <= u32::MAX,
    ensures
        ({
            let plain = spec_inner_plaintext(salt, session_id, msg_id, seq_no, body) + padding;
            &&& plain.len() == 32 + body.len() + padding.len()
            &&& as_i64(from_le64(plain)) == salt
            &&& as_i64(from_le64(plain.skip(8))) == session_id
            &&& as_i64(from_le64(plain.skip(16))) == msg_id
            &&& as_i32(from_le32(plain.skip(24))) == seq_no
            &&& spec_body_of(plain) == body
        }),
{
    let inner = spec_inner_plaintext(salt, session_id, msg_id, seq_no, body);
    let plain = inner + padding;
    crate::tl::wire::lemma_le64_roundtrip(salt as u64);
    crate::tl::wire::lemma_le64_roundtrip(session_id as u64);
    crate::tl::wire::lemma_le64_roundtrip(msg_id as u64);
    crate::tl::wire::lemma_le32_roundtrip(seq_no as u32);
    crate::tl::wire::lemma_le32_roundtrip(body.len() as u32);
    crate::tl::wire::lemma_i64_bits(salt);
    crate::tl::wire::lemma_i64_bits(session_id);
    crate::tl::wire::lemma_i64_bits(msg_id);
    crate::tl::wire::lemma_i32_bits(seq_no);
    let a = le64(salt as u64);
    let b = le64(session_id as u64);
    let c = le64(msg_id as u64);
    let d = le32(seq_no as u32);
    let e = le32(body.len() as u32);
    assert(plain.len() == 32 + body.len() + padding.len());
    assert forall|k: int| 0 <= k < 8 implies plain[k] == a[k] by {}
    assert forall|k: int| 0 <= k < 8 implies plain.skip(8)[k] == b[k] by {}
    assert forall|k: int| 0 <= k < 8 implies plain.skip(16)[k] == c[k] by {}
    assert forall|k: int| 0 <= k < 4 implies plain.skip(24)[k] == d[k] by {}
    assert forall|k: int| 0 <= k < 4 implies plain.skip(28)[k] == e[k] by {}
    assert(from_le64(plain) == from_le64(a));
    assert(from_le64(plain.skip(8)) == from_le64(b));
    assert(from_le64(plain.skip(16)) == from_le64(c));
    assert(from_le32(plain.skip(24)) == from_le32(d));
    assert(from_le32(plain.skip(28)) == from_le32(e));
    assert(plain.subrange(32, 32 + body.len() as int) =~= body);
}


/// The frame that a server makes for the session `session_id` under
/// `auth_key`, with the padding taken from the start of `rnd`: a server's
/// share of the protocol, for test servers and for trying a client out. The
/// session unpacks the frame to the message that went in; every other
/// session under the key refuses it.
pub fn server_frame(
    auth_key: &AuthKey,
    salt: i64,
    session_id: i64,
    msg_id: i64,
    seq_no: i32,
    body: &[u8],
    rnd: &[u8; 32],
) -> (frame: Vec<u8>)
    requires
        body@.len() <= u32::MAX,
    ensures
        ({
            let plain = spec_inner_plaintext(salt, session_id, msg_id, seq_no, body@) + rnd@.take(
                crate::crypto::spec_padding_len(32 + body@.len() as int),
            );
            &&& frame@ == crate::crypto::spec_encrypt_frame(auth_key.bytes(), 8, plain)
            &&& spec_unpack(auth_key.bytes(), session_id, frame@) == Ok::<Seq<u8>, DecryptError>(
                plain,
            )
            &&& as_i64(from_le64(plain)) == salt
            &&& as_i64(from_le64(plain.skip(8))) == session_id
            &&& as_i64(from_le64(plain.skip(16))) == msg_id
            &&& as_i32(from_le32(plain.skip(24))) == seq_no
            &&& spec_body_of(plain) == body@
            &&& forall|other: i64|
                other != session_id ==> #[trigger] spec_unpack(auth_key.bytes(), other, frame@)
                    == Err::<Seq<u8>, DecryptError>(DecryptError::SessionMismatch)
        }),
{
    let hint: usize = if body.len() <= usize::MAX - 64 {
        64 + body.len()
    } else {
        body.len()
    };
    let mut buf = DequeBuffer::with_capacity(hint, 32);
    let mut head: Vec<u8> = Vec::new();
    crate::tl::wire::push_le64(&mut head, #[verifier::truncate] (salt as u64));
    crate::tl::wire::push_le64(&mut head, #[verifier::truncate] (session_id as u64));
    crate::tl::wire::push_le64(&mut head, #[verifier::truncate] (msg_id as u64));
    crate::tl::wire::push_le32(&mut head, #[verifier::truncate] (seq_no as u32));
    crate::tl::wire::push_le32(&mut head, #[verifier::truncate] (body.len() as u32));
    buf.extend_from_slice(head.as_slice());
    buf.extend_from_slice(body);
    assert(buf@ =~= spec_inner_plaintext(salt, session_id, msg_id, seq_no, body@));
    proof {
        lemma_plain_fields(
            salt,
            session_id,
            msg_id,
            seq_no,
            body@,
            rnd@.take(crate::crypto::spec_padding_len(32 + body@.len() as int)),
        );
    }
    crate::crypto::encrypt_frame_as(&mut buf, auth_key, rnd, crate::crypto::Side::Server);
    buf.to_vec()
}

} // verus!

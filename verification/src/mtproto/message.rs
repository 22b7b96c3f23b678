//! Message identifiers and the plaintext frame of the key exchange.

use vstd::prelude::*;
use std::time::{SystemTime, UNIX_EPOCH};
use crate::tl::serialize::zeros;
use crate::tl::wire::{le32, le64, push_all, push_le32, push_le64};

verus! {

/// `SystemTime::now` of the standard library, as the seconds and the
/// nanoseconds since the Unix epoch; both zero where the clock stands before
/// the epoch. Nothing is known of the time but that the nanoseconds stay
/// below a second.
#[verifier::external_body]
pub(crate) fn unix_time() -> (t: (u64, u32))
    ensures
        t.1 < 1_000_000_000,
{
    let d = SystemTime::now().duration_since(UNIX_EPOCH).unwrap_or_default();
    (d.as_secs(), d.subsec_nanos())
}

/// A 64-bit message identifier.
#[derive(Clone, Copy, Debug, Eq, Hash, Ord, PartialEq, PartialOrd)]
pub struct MessageId(pub u64);

/// The identifier made at `unix_secs` with the session's counter at
/// `counter`: the seconds in the upper half, four times the counter below.
pub open spec fn spec_message_id(unix_secs: u64, counter: u32) -> u64 {
    (unix_secs << 32) | ((counter as u64) << 2)
}

impl MessageId {
    /// The identifier for the time `unix_secs` and the counter `counter`.
    pub fn at(unix_secs: u64, counter: u32) -> (id: Self)
        ensures
            id.0 == spec_message_id(unix_secs, counter),
            counter <= 0x3fff_ffff ==> id.0 & 3 == 0,
    {
        let id = (unix_secs << 32) | ((counter as u64) << 2);
        assert(counter <= 0x3fff_ffff ==> ((unix_secs << 32) | ((counter as u64) << 2)) & 3 == 0)
            by (bit_vector);
        MessageId(id)
    }

    /// The identifier for now and the counter `counter`.
    pub fn generate(counter: u32) -> (id: Self)
        ensures
            exists|secs: u64| id.0 == spec_message_id(secs, counter),
    {
        let (secs, _) = unix_time();
        MessageId::at(secs, counter)
    }
}

/// A message ready to be framed: identifier, sequence number and the
/// serialized body.
#[derive(Debug)]
pub struct Message {
    /// The message's identifier.
    pub id: MessageId,
    /// Sequence number: odd for content-related messages, even for others.
    pub seq_no: i32,
    /// The serialized body.
    pub body: Vec<u8>,
}

/// The plaintext frame of a message: a zero key identifier, the message
/// identifier, the body's length and the body.
pub open spec fn spec_plaintext_frame(id: u64, body: Seq<u8>) -> Seq<u8> {
    zeros(8) + le64(id) + le32(body.len() as u32) + body
}

impl Message {
    /// A message for the time before a key exists.
    pub fn plaintext(id: MessageId, seq_no: i32, body: Vec<u8>) -> (m: Self)
        ensures
            m.id == id,
            m.seq_no == seq_no,
            m.body == body,
    {
        Self { id, seq_no, body }
    }

    /// The plaintext frame of the message.
    pub fn to_plaintext_bytes(&self) -> (buf: Vec<u8>)
        ensures
            buf@ == spec_plaintext_frame(self.id.0, self.body@),
    {
        let mut buf: Vec<u8> = Vec::new();
        push_le64(&mut buf, 0u64);
        assert(le64(0u64) =~= zeros(8)) by {
            assert(0u64 & 0xff == 0 && (0u64 >> 8) & 0xff == 0 && (0u64 >> 16) & 0xff == 0 && (0u64
                >> 24) & 0xff == 0 && (0u64 >> 32) & 0xff == 0 && (0u64 >> 40) & 0xff == 0 && (0u64
                >> 48) & 0xff == 0 && (0u64 >> 56) & 0xff == 0) by (bit_vector);
        }
        push_le64(&mut buf, self.id.0);
        let len: u32 = #[verifier::truncate] (self.body.len() as u32);
        push_le32(&mut buf, len);
        push_all(&mut buf, self.body.as_slice());
        buf
    }
}

/// What a plaintext frame carries: its body, or why the frame is refused.
pub open spec fn spec_plaintext_body(frame: Seq<u8>) -> Result<Seq<u8>, PlainFrameError> {
    if frame.len() < 20 {
        Err(PlainFrameError::TooShort)
    } else if crate::tl::wire::from_le64(frame) != 0 {
        Err(PlainFrameError::Encrypted)
    } else {
        let len = crate::tl::wire::from_le32(frame.skip(16)) as int;
        if frame.len() < 20 + len {
            Err(PlainFrameError::Truncated)
        } else {
            Ok(frame.subrange(20, 20 + len))
        }
    }
}

/// Why a plaintext frame is refused.
#[derive(Clone, Copy, Debug, PartialEq, Eq, Structural)]
pub enum PlainFrameError {
    /// The frame is shorter than its header.
    TooShort,
    /// The key identifier is not zero: the frame is an encrypted one.
    Encrypted,
    /// The frame ends before the body does.
    Truncated,
}

impl PlainFrameError {
    /// The error in words.
    pub open spec fn text(self) -> Seq<char> {
        match self {
            PlainFrameError::TooShort => "frame too short"@,
            PlainFrameError::Encrypted => "auth_key_id != 0 in plaintext response"@,
            PlainFrameError::Truncated => "truncated body"@,
        }
    }

    /// A description of the error.
    pub fn to_string(&self) -> (s: String)
        ensures
            s@ == self.text(),
    {
        match self {
            PlainFrameError::TooShort => crate::text::text_of("frame too short"),
            PlainFrameError::Encrypted => crate::text::text_of(
                "auth_key_id != 0 in plaintext response",
            ),
            PlainFrameError::Truncated => crate::text::text_of("truncated body"),
        }
    }
}

/// The body of a plaintext frame.
pub fn plaintext_body(frame: &[u8]) -> (r: Result<Vec<u8>, PlainFrameError>)
    ensures
        match spec_plaintext_body(frame@) {
            Ok(body) => r is Ok && r->Ok_0@ == body,
            Err(e) => r == Err::<Vec<u8>, PlainFrameError>(e),
        },
{
    if frame.len() < 20 {
        return Err(PlainFrameError::TooShort);
    }
    let key_id = crate::tl::wire::read_le64(frame, 0);
    assert(frame@.skip(0) =~= frame@);
    if key_id != 0 {
        return Err(PlainFrameError::Encrypted);
    }
    let len = crate::tl::wire::read_le32(frame, 16) as usize;
    if frame.len() - 20 < len {
        return Err(PlainFrameError::Truncated);
    }
    Ok(crate::tl::wire::copy_range(frame, 20, 20 + len))
}

} // verus!

//! The framings that carry packets over a byte stream: Abridged,
//! Intermediate and Full. Each has a function that frames a payload and one
//! that takes the next frame off the front of the bytes received so far.

use vstd::prelude::*;
use crate::crc32::{crc32, spec_crc32};
use crate::client::transport_kind::TransportKind;
use crate::mtproto::transport::{abridged_header, spec_abridged_header};
use crate::tl::wire::{
    as_i32, copy_range, from_le32, le32, lemma_le32_roundtrip, push_all, push_le32, read_le32,
};

verus! {

/// Why a byte stream is not a stream of frames.
#[derive(Clone, Copy, Debug, PartialEq, Eq, Structural)]
pub enum FrameError {
    /// An abridged frame announces no words, or 0x8000 words or more.
    ImplausibleLength { words: usize },
    /// A full frame announces fewer bytes than its own header and checksum.
    TooShort { total: usize },
    /// The checksum of a full frame is not that of its content.
    CrcMismatch { got: u32, expected: u32 },
}

/// What stands at the front of the bytes received so far.
#[derive(Debug, PartialEq, Eq)]
pub enum Parsed {
    /// Not yet a whole frame: more bytes must be read.
    NeedMore,
    /// A frame with this payload, in the first `consumed` bytes.
    Frame { payload: Vec<u8>, consumed: usize },
    /// An error code of the transport itself, in the first `consumed` bytes.
    TransportError { code: i32, consumed: usize },
    /// The stream is corrupt.
    Corrupt(FrameError),
}

/// `Parsed` as contracts see it.
pub enum ParsedView {
    NeedMore,
    Frame { payload: Seq<u8>, consumed: int },
    TransportError { code: i32, consumed: int },
    Corrupt(FrameError),
}

impl View for Parsed {
    type V = ParsedView;

    open spec fn view(&self) -> ParsedView {
        match self {
            Parsed::NeedMore => ParsedView::NeedMore,
            Parsed::Frame { payload, consumed } => ParsedView::Frame {
                payload: payload@,
                consumed: *consumed as int,
            },
            Parsed::TransportError { code, consumed } => ParsedView::TransportError {
                code: *code,
                consumed: *consumed as int,
            },
            Parsed::Corrupt(e) => ParsedView::Corrupt(*e),
        }
    }
}

// ─── Abridged ────────────────────────────────────────────────────────────────
/// The four bytes that announce the intermediate framing.
pub open spec fn intermediate_init() -> Seq<u8> {
    seq![0xeeu8, 0xeeu8, 0xeeu8, 0xeeu8]
}

/// The largest number of words, exclusive, that an abridged frame may
/// announce.
pub const ABRIDGED_WORD_LIMIT: usize = 0x8000;

/// An abridged frame: the length prefix, then the payload.
pub open spec fn spec_abridged_frame(payload: Seq<u8>) -> Seq<u8> {
    spec_abridged_header(payload.len() as usize) + payload
}

/// The number that the three bytes after the marker `0x7f` announce.
pub open spec fn words24(a: u8, b: u8, c: u8) -> usize {
    (a as usize) | ((b as usize) << 8) | ((c as usize) << 16)
}

/// What stands at the front of `buf` in the abridged framing. A first byte
/// below `0x7f` is the number of words; any other first byte is followed by
/// three bytes with that number. After the longer prefix the number 1 is no
/// length: four bytes follow that hold an error code of the transport. No
/// words, or 0x8000 words and more, are not plausible.
pub open spec fn spec_abridged_parse(buf: Seq<u8>) -> ParsedView {
    if buf.len() < 1 {
        ParsedView::NeedMore
    } else if buf[0] < 0x7f {
        abridged_body(buf, 1, buf[0] as usize)
    } else if buf.len() < 4 {
        ParsedView::NeedMore
    } else {
        let words = words24(buf[1], buf[2], buf[3]);
        if words == 1 {
            if buf.len() < 8 {
                ParsedView::NeedMore
            } else {
                ParsedView::TransportError { code: as_i32(from_le32(buf.skip(4))), consumed: 8 }
            }
        } else {
            abridged_body(buf, 4, words)
        }
    }
}

/// The frame of `words` words behind a prefix of `head` bytes.
pub open spec fn abridged_body(buf: Seq<u8>, head: int, words: usize) -> ParsedView {
    if words == 0 || words >= ABRIDGED_WORD_LIMIT {
        ParsedView::Corrupt(FrameError::ImplausibleLength { words })
    } else if buf.len() < head + words * 4 {
        ParsedView::NeedMore
    } else {
        ParsedView::Frame {
            payload: buf.subrange(head, head + words * 4),
            consumed: head + words * 4,
        }
    }
}

/// Frames `payload` in the abridged framing.
pub fn abridged_frame(payload: &[u8]) -> (frame: Vec<u8>)
    ensures
        frame@ == spec_abridged_frame(payload@),
{
    let mut frame = abridged_header(payload.len());
    push_all(&mut frame, payload);
    frame
}

/// Takes the frame of `words` words behind a prefix of `head` bytes.
fn take_abridged_body(buf: &[u8], head: usize, words: usize) -> (r: Parsed)
    requires
        head <= 4,
        head <= buf@.len(),
        words < 0x100_0000,
    ensures
        r@ == abridged_body(buf@, head as int, words),
{
    if words == 0 || words >= ABRIDGED_WORD_LIMIT {
        return Parsed::Corrupt(FrameError::ImplausibleLength { words });
    }
    let len = words * 4;
    if buf.len() - head < len {
        return Parsed::NeedMore;
    }
    Parsed::Frame { payload: copy_range(buf, head, head + len), consumed: head + len }
}

/// Takes the next abridged frame off the front of `buf`.
pub fn abridged_parse(buf: &[u8]) -> (r: Parsed)
    ensures
        r@ == spec_abridged_parse(buf@),
{
    if buf.len() < 1 {
        return Parsed::NeedMore;
    }
    if buf[0] < 0x7f {
        return take_abridged_body(buf, 1, buf[0] as usize);
    }
    if buf.len() < 4 {
        return Parsed::NeedMore;
    }
    let a = buf[1];
    let b = buf[2];
    let c = buf[3];
    let words = (a as usize) | ((b as usize) << 8) | ((c as usize) << 16);
    assert(words < 0x100_0000) by (bit_vector)
        requires
            words == (a as usize) | ((b as usize) << 8) | ((c as usize) << 16),
    ;
    if words == 1 {
        if buf.len() < 8 {
            return Parsed::NeedMore;
        }
        let code = #[verifier::truncate] (read_le32(buf, 4) as i32);
        return Parsed::TransportError { code, consumed: 8 };
    }
    take_abridged_body(buf, 4, words)
}

/// The payloads that the abridged framing carries whole: a positive number
/// of 4-byte words below the limit.
pub open spec fn abridged_carries(len: nat) -> bool {
    len % 4 == 0 && 0 < len / 4 < ABRIDGED_WORD_LIMIT
}

/// Taking an abridged frame off the front of a stream gives the payload
/// that was framed, whatever follows.
pub proof fn lemma_abridged_roundtrip(payload: Seq<u8>, rest: Seq<u8>)
    requires
        abridged_carries(payload.len()),
    ensures
        spec_abridged_parse(spec_abridged_frame(payload) + rest) == (ParsedView::Frame {
            payload,
            consumed: spec_abridged_frame(payload).len() as int,
        }),
{
    let len = payload.len() as usize;
    let words: usize = len / 4;
    let header = spec_abridged_header(len);
    let buf = spec_abridged_frame(payload) + rest;
    assert(buf[0] == header[0]);
    if words < 127 {
        assert(buf.subrange(1, 1 + words * 4) =~= payload);
    } else {
        assert(buf[1] == header[1] && buf[2] == header[2] && buf[3] == header[3]);
        assert(words24((words & 0xff) as u8, ((words >> 8) & 0xff) as u8, ((words >> 16) & 0xff) as u8)
            == words) by (bit_vector)
            requires
                words < 0x8000,
        ;
        assert(buf.subrange(4, 4 + words * 4) =~= payload);
    }
}

/// The prefix `7f 01 00 00` and four more bytes are an error code of the
/// transport, never a frame of one word.
pub proof fn lemma_abridged_transport_error(code: Seq<u8>, rest: Seq<u8>)
    requires
        code.len() == 4,
    ensures
        spec_abridged_parse(seq![0x7fu8, 0x01u8, 0x00u8, 0x00u8] + code + rest) == (
        ParsedView::TransportError { code: as_i32(from_le32(code)), consumed: 8 }),
{
    let buf = seq![0x7fu8, 0x01u8, 0x00u8, 0x00u8] + code + rest;
    assert(buf[0] == 0x7f && buf[1] == 1 && buf[2] == 0 && buf[3] == 0);
    assert(words24(1u8, 0u8, 0u8) == 1) by (bit_vector);
    let tail = buf.skip(4);
    assert(tail[0] == code[0] && tail[1] == code[1] && tail[2] == code[2] && tail[3] == code[3]);
}

// ─── Intermediate ────────────────────────────────────────────────────────────
/// An intermediate frame: the payload's length in four bytes, then the
/// payload.
pub open spec fn spec_intermediate_frame(payload: Seq<u8>) -> Seq<u8> {
    le32(payload.len() as u32) + payload
}

/// What stands at the front of `buf` in the intermediate framing.
pub open spec fn spec_intermediate_parse(buf: Seq<u8>) -> ParsedView {
    if buf.len() < 4 {
        ParsedView::NeedMore
    } else {
        let len = from_le32(buf) as int;
        if buf.len() < 4 + len {
            ParsedView::NeedMore
        } else {
            ParsedView::Frame { payload: buf.subrange(4, 4 + len), consumed: 4 + len }
        }
    }
}

/// Frames `payload` in the intermediate framing.
pub fn intermediate_frame(payload: &[u8]) -> (frame: Vec<u8>)
    ensures
        frame@ == spec_intermediate_frame(payload@),
{
    let mut frame: Vec<u8> = Vec::new();
    push_le32(&mut frame, #[verifier::truncate] (payload.len() as u32));
    push_all(&mut frame, payload);
    frame
}

/// Takes the next intermediate frame off the front of `buf`.
pub fn intermediate_parse(buf: &[u8]) -> (r: Parsed)
    ensures
        r@ == spec_intermediate_parse(buf@),
{
    if buf.len() < 4 {
        return Parsed::NeedMore;
    }
    let len = read_le32(buf, 0) as usize;
    assert(buf@.skip(0) =~= buf@);
    if buf.len() - 4 < len {
        return Parsed::NeedMore;
    }
    Parsed::Frame { payload: copy_range(buf, 4, 4 + len), consumed: 4 + len }
}

/// Taking an intermediate frame off the front of a stream gives the payload
/// that was framed.
pub proof fn lemma_intermediate_roundtrip(payload: Seq<u8>, rest: Seq<u8>)
    requires
        payload.len() <= u32::MAX,
    ensures
        spec_intermediate_parse(spec_intermediate_frame(payload) + rest) == (ParsedView::Frame {
            payload,
            consumed: spec_intermediate_frame(payload).len() as int,
        }),
{
    let len = payload.len() as u32;
    let buf = spec_intermediate_frame(payload) + rest;
    lemma_le32_roundtrip(len);
    let head = le32(len);
    assert(buf[0] == head[0] && buf[1] == head[1] && buf[2] == head[2] && buf[3] == head[3]);
    assert(buf.subrange(4, 4 + len) =~= payload);
}

// ─── Full ────────────────────────────────────────────────────────────────────
/// What a full frame holds before its checksum: the frame's whole length,
/// the sequence number, the payload.
pub open spec fn spec_full_content(seq_no: u32, payload: Seq<u8>) -> Seq<u8> {
    le32((payload.len() + 12) as u32) + le32(seq_no) + payload
}

/// A full frame: the content and its CRC-32.
pub open spec fn spec_full_frame(seq_no: u32, payload: Seq<u8>) -> Seq<u8> {
    spec_full_content(seq_no, payload) + le32(spec_crc32(spec_full_content(seq_no, payload)))
}

/// What stands at the front of `buf` in the full framing. The first four
/// bytes are the frame's length, which must cover length, sequence number
/// and checksum; the last four bytes of the frame must be the CRC-32 of what
/// stands before them.
pub open spec fn spec_full_parse(buf: Seq<u8>) -> ParsedView {
    if buf.len() < 4 {
        ParsedView::NeedMore
    } else {
        let total = from_le32(buf) as int;
        if total < 12 {
            ParsedView::Corrupt(FrameError::TooShort { total: from_le32(buf) as usize })
        } else if buf.len() < total {
            ParsedView::NeedMore
        } else {
            let content = buf.subrange(0, total - 4);
            let got = from_le32(buf.skip(total - 4));
            if spec_crc32(content) != got {
                ParsedView::Corrupt(
                    FrameError::CrcMismatch { got: spec_crc32(content), expected: got },
                )
            } else {
                ParsedView::Frame { payload: buf.subrange(8, total - 4), consumed: total }
            }
        }
    }
}

/// Frames `payload` in the full framing with the sequence number `seq_no`.
pub fn full_frame(seq_no: u32, payload: &[u8]) -> (frame: Vec<u8>)
    ensures
        frame@ == spec_full_frame(seq_no, payload@),
{
    let len: u32 = #[verifier::truncate] (payload.len() as u32);
    let total: u32 = len.wrapping_add(12);
    let mut frame: Vec<u8> = Vec::new();
    assert(total == (payload@.len() + 12) as u32) by {
        let n = payload@.len() as usize;
        assert((n as u32).wrapping_add(12) == ((n + 12) as u32)) by (bit_vector);
    }
    push_le32(&mut frame, total);
    push_le32(&mut frame, seq_no);
    push_all(&mut frame, payload);
    let crc = crc32(frame.as_slice());
    push_le32(&mut frame, crc);
    frame
}

/// Takes the next full frame off the front of `buf`.
pub fn full_parse(buf: &[u8]) -> (r: Parsed)
    ensures
        r@ == spec_full_parse(buf@),
{
    if buf.len() < 4 {
        return Parsed::NeedMore;
    }
    let total = read_le32(buf, 0) as usize;
    assert(buf@.skip(0) =~= buf@);
    if total < 12 {
        return Parsed::Corrupt(FrameError::TooShort { total });
    }
    if buf.len() < total {
        return Parsed::NeedMore;
    }
    let content = copy_range(buf, 0, total - 4);
    let expected = read_le32(buf, total - 4);
    let actual = crc32(content.as_slice());
    if actual != expected {
        return Parsed::Corrupt(FrameError::CrcMismatch { got: actual, expected });
    }
    Parsed::Frame { payload: copy_range(buf, 8, total - 4), consumed: total }
}

/// Taking a full frame off the front of a stream gives the payload that
/// was framed.
pub proof fn lemma_full_roundtrip(seq_no: u32, payload: Seq<u8>, rest: Seq<u8>)
    requires
        payload.len() + 12 <= u32::MAX,
    ensures
        spec_full_parse(spec_full_frame(seq_no, payload) + rest) == (ParsedView::Frame {
            payload,
            consumed: spec_full_frame(seq_no, payload).len() as int,
        }),
{
    let total = (payload.len() + 12) as u32;
    let content = spec_full_content(seq_no, payload);
    let crc = spec_crc32(content);
    let buf = spec_full_frame(seq_no, payload) + rest;
    lemma_le32_roundtrip(total);
    lemma_le32_roundtrip(crc);
    let head = le32(total);
    assert(buf[0] == head[0] && buf[1] == head[1] && buf[2] == head[2] && buf[3] == head[3]);
    assert(buf.subrange(0, total - 4) =~= content);
    let tail = buf.skip(total - 4);
    let sum = le32(crc);
    assert(tail[0] == sum[0] && tail[1] == sum[1] && tail[2] == sum[2] && tail[3] == sum[3]);
    assert(buf.subrange(8, total - 4) =~= payload);
}

/// The sequence numbers of a connection in the full framing.
#[derive(Clone, Copy, Debug, PartialEq, Eq)]
pub struct FullFramer {
    pub send_seqno: u32,
    pub recv_seqno: u32,
}

impl FullFramer {
    /// Both numbers at zero.
    pub fn new() -> (f: Self)
        ensures
            f.send_seqno == 0,
            f.recv_seqno == 0,
    {
        FullFramer { send_seqno: 0, recv_seqno: 0 }
    }

    /// Frames `payload` with the next sequence number.
    pub fn frame(&mut self, payload: &[u8]) -> (frame: Vec<u8>)
        ensures
            frame@ == spec_full_frame(old(self).send_seqno, payload@),
            final(self).send_seqno == old(self).send_seqno.wrapping_add(1),
            final(self).recv_seqno == old(self).recv_seqno,
    {
        let seq = self.send_seqno;
        self.send_seqno = self.send_seqno.wrapping_add(1);
        full_frame(seq, payload)
    }

    /// Takes the next frame off the front of `buf`, and counts it.
    pub fn accept(&mut self, buf: &[u8]) -> (r: Parsed)
        ensures
            r@ == spec_full_parse(buf@),
            final(self).send_seqno == old(self).send_seqno,
            final(self).recv_seqno == if r is Frame {
                old(self).recv_seqno.wrapping_add(1)
            } else {
                old(self).recv_seqno
            },
    {
        let r = full_parse(buf);
        match &r {
            Parsed::Frame { .. } => {
                self.recv_seqno = self.recv_seqno.wrapping_add(1);
            },
            _ => {},
        }
        r
    }
}

// ─── by kind ─────────────────────────────────────────────────────────────────
/// The bytes that announce a framing at the start of a connection.
pub open spec fn spec_init_bytes(kind: TransportKind) -> Seq<u8> {
    match kind {
        TransportKind::Abridged => seq![0xefu8],
        TransportKind::Intermediate => intermediate_init(),
        TransportKind::Full => Seq::empty(),
        TransportKind::Obfuscated { .. } => Seq::empty(),
    }
}

/// The bytes that announce the framing `kind`. The obfuscated framing has a
/// handshake of its own in place of them.
pub fn init_bytes(kind: &TransportKind) -> (b: Vec<u8>)
    ensures
        b@ == spec_init_bytes(*kind),
{
    let mut b: Vec<u8> = Vec::new();
    match kind {
        TransportKind::Abridged => {
            b.push(0xef);
        },
        TransportKind::Intermediate => {
            b.push(0xee);
            b.push(0xee);
            b.push(0xee);
            b.push(0xee);
        },
        TransportKind::Full => {},
        TransportKind::Obfuscated { .. } => {},
    }
    assert(b@ =~= spec_init_bytes(*kind));
    b
}

} // verus!

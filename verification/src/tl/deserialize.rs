//! Reading values from their binary form: the cursor, the trait and the
//! built-in types.

use vstd::prelude::*;
use vstd::string::StringSliceAdditionalSpecFns;
use vstd::utf8::{decode_utf8, valid_utf8};
use crate::tl::wire::{as_i32, as_i64, copy_range, from_le32, from_le64, read_le32, read_le64};
use crate::tl::serialize::pad_to_4;
use crate::tl::RawVec;

verus! {

/// Why a value could not be read.
#[derive(Clone, Copy, Debug, PartialEq, Eq, Structural)]
pub enum Error {
    /// The buffer ended before the value did.
    UnexpectedEof,
    /// The leading constructor ID belongs to no variant of the expected type.
    UnexpectedConstructor { id: u32 },
}

impl Error {
    /// The error in words, as bytes.
    pub open spec fn text_bytes(self) -> Seq<u8> {
        match self {
            Error::UnexpectedEof => "unexpected end of buffer".spec_bytes(),
            Error::UnexpectedConstructor { id } => "unexpected constructor id: ".spec_bytes()
                + crate::codegen::format::spec_hex10(id),
        }
    }

    /// The error in words.
    pub open spec fn text(self) -> Seq<char> {
        crate::client::session::spec_lenient_text(self.text_bytes())
    }

    /// Appends the error in words.
    pub fn push_text(&self, out: &mut Vec<u8>)
        ensures
            final(out)@ == old(out)@ + self.text_bytes(),
    {
        match self {
            Error::UnexpectedEof => {
                crate::tl::wire::push_all(out, "unexpected end of buffer".as_bytes());
            },
            Error::UnexpectedConstructor { id } => {
                crate::tl::wire::push_all(out, "unexpected constructor id: ".as_bytes());
                crate::codegen::format::push_hex10(out, *id);
                assert(out@ =~= old(out)@ + self.text_bytes());
            },
        }
    }

    /// The error in words: for a constructor ID that was not expected, the ID
    /// in hexadecimal.
    pub fn to_string(&self) -> (s: String)
        ensures
            s@ == self.text(),
    {
        let mut out: Vec<u8> = Vec::new();
        self.push_text(&mut out);
        assert(out@ =~= self.text_bytes());
        crate::client::session::lenient_text(out.as_slice())
    }
}

/// Result of reading a value.
pub type Result<T> = std::result::Result<T, Error>;

/// Constructor ID of `boolTrue`.
pub const BOOL_TRUE_ID: u32 = 0x997275b5;

/// Constructor ID of `boolFalse`.
pub const BOOL_FALSE_ID: u32 = 0xbc799737;

/// Constructor ID of a boxed vector.
pub const VECTOR_ID: u32 = 0x1cb5c415;

/// A read position over a borrowed byte slice.
pub struct Cursor<'a> {
    buf: &'a [u8],
    pos: usize,
}

impl<'a> Cursor<'a> {
    #[verifier::type_invariant]
    spec fn in_bounds(self) -> bool {
        self.pos <= self.buf@.len()
    }

    /// All the bytes under the cursor, read or not.
    pub closed spec fn data(self) -> Seq<u8> {
        self.buf@
    }

    /// How many bytes have been read.
    pub closed spec fn spec_pos(self) -> nat {
        self.pos as nat
    }

    /// The bytes not read yet.
    pub open spec fn rest(self) -> Seq<u8> {
        self.data().skip(self.spec_pos() as int)
    }

    /// A cursor at the start of `buf`.
    pub fn from_slice(buf: &'a [u8]) -> (c: Self)
        ensures
            c.data() == buf@,
            c.spec_pos() == 0,
    {
        Self { buf, pos: 0 }
    }

    /// Current byte offset.
    pub fn pos(&self) -> (p: usize)
        ensures
            p == self.spec_pos(),
    {
        self.pos
    }

    /// Number of bytes not read yet.
    pub fn remaining(&self) -> (n: usize)
        ensures
            n == self.rest().len(),
    {
        proof {
            use_type_invariant(self);
        }
        self.buf.len() - self.pos
    }

    /// Reads one byte; at the end of the buffer the cursor stays put.
    pub fn read_byte(&mut self) -> (r: Result<u8>)
        ensures
            final(self).data() == old(self).data(),
            old(self).rest().len() == 0 ==> r == Err::<u8, Error>(Error::UnexpectedEof) && final(self).spec_pos() == old(self).spec_pos(),
            old(self).rest().len() > 0 ==> r == Ok::<u8, Error>(old(self).rest()[0]) && final(self).spec_pos() == old(self).spec_pos() + 1,
    {
        proof {
            use_type_invariant(&*self);
        }
        if self.pos < self.buf.len() {
            let b = self.buf[self.pos];
            self.pos += 1;
            Ok(b)
        } else {
            Err(Error::UnexpectedEof)
        }
    }

    /// Fills `out` with the next `out.len()` bytes; if fewer are left, reads
    /// nothing and leaves `out` as it was.
    pub fn read_exact(&mut self, out: &mut [u8]) -> (r: Result<()>)
        ensures
            final(self).data() == old(self).data(),
            final(out)@.len() == old(out)@.len(),
            old(self).rest().len() < old(out)@.len() ==> r == Err::<(), Error>(Error::UnexpectedEof)
                && final(self).spec_pos() == old(self).spec_pos() && final(out)@ == old(out)@,
            old(self).rest().len() >= old(out)@.len() ==> r == Ok::<(), Error>(()) && final(out)@
                == old(self).rest().take(old(out)@.len() as int) && final(self).spec_pos() == old(self).spec_pos() + old(out)@.len(),
    {
        proof {
            use_type_invariant(&*self);
        }
        let n = out.len();
        if n > self.buf.len() - self.pos {
            return Err(Error::UnexpectedEof);
        }
        let start = self.pos;
        let total = self.buf.len();
        let mut i: usize = 0;
        while i < n
            invariant
                i <= n,
                n == out@.len(),
                start + n <= total,
                total == self.buf@.len(),
                start == self.pos,
                self.buf@ == old(self).buf@,
                forall|k: int| 0 <= k < i ==> out@[k] == self.buf@[start + k],
            decreases n - i,
        {
            out[i] = self.buf[start + i];
            i += 1;
        }
        self.pos = start + n;
        assert(out@ =~= old(self).rest().take(n as int));
        Ok(())
    }

    /// Appends everything not read yet to `out` and returns how much that was.
    pub fn read_to_end(&mut self, out: &mut Vec<u8>) -> (n: usize)
        ensures
            final(self).data() == old(self).data(),
            final(self).spec_pos() == old(self).data().len(),
            final(out)@ == old(out)@ + old(self).rest(),
            n == old(self).rest().len(),
    {
        proof {
            use_type_invariant(&*self);
        }
        let tail = copy_range(self.buf, self.pos, self.buf.len());
        let n = tail.len();
        let mut tail = tail;
        out.append(&mut tail);
        self.pos = self.buf.len();
        assert(old(self).rest() =~= old(self).buf@.subrange(
            old(self).pos as int,
            old(self).buf@.len() as int,
        ));
        n
    }

    /// Reads the next `n` bytes into a new vector; if fewer are left, reads
    /// nothing.
    pub fn read_vec(&mut self, n: usize) -> (r: Result<Vec<u8>>)
        ensures
            final(self).data() == old(self).data(),
            old(self).rest().len() < n ==> r is Err && r->Err_0 == Error::UnexpectedEof && final(self).spec_pos() == old(self).spec_pos(),
            old(self).rest().len() >= n ==> r is Ok && r->Ok_0@ == old(self).rest().take(n as int)
                && final(self).spec_pos() == old(self).spec_pos() + n,
    {
        proof {
            use_type_invariant(&*self);
        }
        if n > self.buf.len() - self.pos {
            return Err(Error::UnexpectedEof);
        }
        let v = copy_range(self.buf, self.pos, self.pos + n);
        assert(v@ =~= old(self).rest().take(n as int));
        self.pos = self.pos + n;
        Ok(v)
    }
}

/// A type that can be read from its binary form.
pub trait Deserializable: Sized + DeepView {
    /// What reading from `s` gives: the value and the number of bytes it
    /// occupies, or the reason why there is no value.
    spec fn parse(s: Seq<u8>) -> Result<(Self::V, int)>;

    /// Reads a value at the cursor. On success the cursor stands behind the
    /// value; on failure it stands somewhere between its old place and the end.
    fn deserialize(buf: &mut Cursor) -> (r: Result<Self>)
        ensures
            final(buf).data() == old(buf).data(),
            old(buf).spec_pos() <= final(buf).spec_pos() <= old(buf).data().len(),
            match Self::parse(old(buf).rest()) {
                Ok((v, n)) => r is Ok && r->Ok_0.deep_view() == v && final(buf).spec_pos() == old(buf).spec_pos() + n,
                Err(e) => r is Err && r->Err_0 == e,
            },
    ;

    /// Reads a value from the start of `bytes`.
    fn from_bytes(bytes: &[u8]) -> (r: Result<Self>)
        ensures
            match Self::parse(bytes@) {
                Ok((v, n)) => r is Ok && r->Ok_0.deep_view() == v,
                Err(e) => r is Err && r->Err_0 == e,
            },
    {
        let mut cursor = Cursor::from_slice(bytes);
        assert(cursor.rest() =~= bytes@);
        Self::deserialize(&mut cursor)
    }
}

// ─── integers and bool ───────────────────────────────────────────────────────
/// Reading an unsigned 32-bit integer from `s`.
pub open spec fn parse_u32(s: Seq<u8>) -> Result<(u32, int)> {
    if s.len() < 4 {
        Err(Error::UnexpectedEof)
    } else {
        Ok((from_le32(s), 4))
    }
}

/// Reading an unsigned 64-bit integer from `s`.
pub open spec fn parse_u64(s: Seq<u8>) -> Result<(u64, int)> {
    if s.len() < 8 {
        Err(Error::UnexpectedEof)
    } else {
        Ok((from_le64(s), 8))
    }
}

/// Reads a little-endian `u32` at the cursor.
pub fn take_u32(buf: &mut Cursor) -> (r: Result<u32>)
    ensures
        final(buf).data() == old(buf).data(),
        old(buf).spec_pos() <= final(buf).spec_pos() <= old(buf).data().len(),
        match parse_u32(old(buf).rest()) {
            Ok((v, n)) => r == Ok::<u32, Error>(v) && final(buf).spec_pos() == old(buf).spec_pos()
                + n,
            Err(e) => r == Err::<u32, Error>(e) && final(buf).spec_pos() == old(buf).spec_pos(),
        },
{
    proof {
        use_type_invariant(&*buf);
    }
    let mut b = [0u8; 4];
    match buf.read_exact(&mut b) {
        Ok(()) => {
            let x = read_le32(&b, 0);
            assert(b@.skip(0) =~= b@);
            Ok(x)
        },
        Err(e) => Err(e),
    }
}

/// Reads a little-endian `u64` at the cursor.
pub fn take_u64(buf: &mut Cursor) -> (r: Result<u64>)
    ensures
        final(buf).data() == old(buf).data(),
        old(buf).spec_pos() <= final(buf).spec_pos() <= old(buf).data().len(),
        match parse_u64(old(buf).rest()) {
            Ok((v, n)) => r == Ok::<u64, Error>(v) && final(buf).spec_pos() == old(buf).spec_pos()
                + n,
            Err(e) => r == Err::<u64, Error>(e) && final(buf).spec_pos() == old(buf).spec_pos(),
        },
{
    proof {
        use_type_invariant(&*buf);
    }
    let mut b = [0u8; 8];
    match buf.read_exact(&mut b) {
        Ok(()) => {
            let x = read_le64(&b, 0);
            assert(b@.skip(0) =~= b@);
            Ok(x)
        },
        Err(e) => Err(e),
    }
}

impl Deserializable for u32 {
    open spec fn parse(s: Seq<u8>) -> Result<(u32, int)> {
        parse_u32(s)
    }

    fn deserialize(buf: &mut Cursor) -> (r: Result<Self>) {
        take_u32(buf)
    }
}

impl Deserializable for i32 {
    open spec fn parse(s: Seq<u8>) -> Result<(i32, int)> {
        match parse_u32(s) {
            Ok((v, n)) => Ok((as_i32(v), n)),
            Err(e) => Err(e),
        }
    }

    fn deserialize(buf: &mut Cursor) -> (r: Result<Self>) {
        match take_u32(buf) {
            Ok(v) => Ok(#[verifier::truncate] (v as i32)),
            Err(e) => Err(e),
        }
    }
}

impl Deserializable for i64 {
    open spec fn parse(s: Seq<u8>) -> Result<(i64, int)> {
        match parse_u64(s) {
            Ok((v, n)) => Ok((as_i64(v), n)),
            Err(e) => Err(e),
        }
    }

    fn deserialize(buf: &mut Cursor) -> (r: Result<Self>) {
        match take_u64(buf) {
            Ok(v) => Ok(#[verifier::truncate] (v as i64)),
            Err(e) => Err(e),
        }
    }
}

impl Deserializable for bool {
    open spec fn parse(s: Seq<u8>) -> Result<(bool, int)> {
        match parse_u32(s) {
            Ok((id, n)) => if id == BOOL_TRUE_ID {
                Ok((true, n))
            } else if id == BOOL_FALSE_ID {
                Ok((false, n))
            } else {
                Err(Error::UnexpectedConstructor { id })
            },
            Err(e) => Err(e),
        }
    }

    fn deserialize(buf: &mut Cursor) -> (r: Result<Self>) {
        match take_u32(buf) {
            Ok(id) => if id == BOOL_TRUE_ID {
                Ok(true)
            } else if id == BOOL_FALSE_ID {
                Ok(false)
            } else {
                Err(Error::UnexpectedConstructor { id })
            },
            Err(e) => Err(e),
        }
    }
}

// ─── fixed-size blobs ────────────────────────────────────────────────────────
/// Reading `n` raw bytes from `s`.
pub open spec fn parse_raw(s: Seq<u8>, n: int) -> Result<(Seq<u8>, int)> {
    if s.len() < n {
        Err(Error::UnexpectedEof)
    } else {
        Ok((s.take(n), n))
    }
}

impl Deserializable for [u8; 16] {
    open spec fn parse(s: Seq<u8>) -> Result<(Seq<u8>, int)> {
        parse_raw(s, 16)
    }

    fn deserialize(buf: &mut Cursor) -> (r: Result<Self>) {
        proof {
            use_type_invariant(&*buf);
        }
        let mut b = [0u8; 16];
        match buf.read_exact(&mut b) {
            Ok(()) => {
                assert(b.deep_view() =~= b@);
                Ok(b)
            },
            Err(e) => Err(e),
        }
    }
}

impl Deserializable for [u8; 32] {
    open spec fn parse(s: Seq<u8>) -> Result<(Seq<u8>, int)> {
        parse_raw(s, 32)
    }

    fn deserialize(buf: &mut Cursor) -> (r: Result<Self>) {
        proof {
            use_type_invariant(&*buf);
        }
        let mut b = [0u8; 32];
        match buf.read_exact(&mut b) {
            Ok(()) => {
                assert(b.deep_view() =~= b@);
                Ok(b)
            },
            Err(e) => Err(e),
        }
    }
}

// ─── byte strings ────────────────────────────────────────────────────────────
/// The length that the three bytes after the marker `0xfe` announce.
pub open spec fn join24(a: u8, b: u8, c: u8) -> usize {
    (a as usize) | ((b as usize) << 8) | ((c as usize) << 16)
}

/// Reading a byte string from `s`: a one-byte length (or `0xfe` and three
/// length bytes), the data, then the padding that completes a multiple of
/// four bytes. The padding's content is not looked at.
pub open spec fn parse_bytes(s: Seq<u8>) -> Result<(Seq<u8>, int)> {
    if s.len() == 0 {
        Err(Error::UnexpectedEof)
    } else {
        let head: int = if s[0] != 0xfe {
            1
        } else {
            4
        };
        if s.len() < head {
            Err(Error::UnexpectedEof)
        } else {
            let len: int = if s[0] != 0xfe {
                s[0] as int
            } else {
                join24(s[1], s[2], s[3]) as int
            };
            let end = head + len + pad_to_4(head + len);
            if s.len() < end {
                Err(Error::UnexpectedEof)
            } else {
                Ok((s.subrange(head, head + len), end))
            }
        }
    }
}

/// Reads a byte string at the cursor.
#[verifier::loop_isolation(false)]
pub fn take_bytes(buf: &mut Cursor) -> (r: Result<Vec<u8>>)
    ensures
        final(buf).data() == old(buf).data(),
        old(buf).spec_pos() <= final(buf).spec_pos() <= old(buf).data().len(),
        match parse_bytes(old(buf).rest()) {
            Ok((v, n)) => r is Ok && r->Ok_0@ == v && final(buf).spec_pos() == old(buf).spec_pos()
                + n,
            Err(e) => r is Err && r->Err_0 == e,
        },
{
    proof {
        use_type_invariant(&*buf);
    }
    let ghost s = buf.rest();
    let first = match buf.read_byte() {
        Ok(b) => b,
        Err(e) => {
            return Err(e);
        },
    };
    let mut len: usize = first as usize;
    let mut head: usize = 1;
    if first == 0xfe {
        let a = match buf.read_byte() {
            Ok(b) => b,
            Err(e) => {
                return Err(e);
            },
        };
        assert(a == s[1]);
        let b = match buf.read_byte() {
            Ok(b) => b,
            Err(e) => {
                return Err(e);
            },
        };
        assert(b == s[2]);
        let c = match buf.read_byte() {
            Ok(b) => b,
            Err(e) => {
                return Err(e);
            },
        };
        assert(c == s[3]);
        len = (a as usize) | ((b as usize) << 8) | ((c as usize) << 16);
        assert(len <= 0xff_ffff) by (bit_vector)
            requires
                len == (a as usize) | ((b as usize) << 8) | ((c as usize) << 16),
        ;
        head = 4;
    }
    let data = match buf.read_vec(len) {
        Ok(d) => d,
        Err(e) => {
            return Err(e);
        },
    };
    assert(data@ =~= s.subrange(head as int, head + len));
    let padding: usize = (4 - ((head + len) % 4)) % 4;
    let mut i: usize = 0;
    while i < padding
        invariant
            i <= padding,
            buf.data() == old(buf).data(),
            buf.spec_pos() == old(buf).spec_pos() + head + len + i,
            buf.spec_pos() <= buf.data().len(),
        decreases padding - i,
    {
        match buf.read_byte() {
            Ok(_) => {},
            Err(e) => {
                return Err(e);
            },
        }
        i += 1;
    }
    Ok(data)
}

impl Deserializable for Vec<u8> {
    open spec fn parse(s: Seq<u8>) -> Result<(Seq<u8>, int)> {
        parse_bytes(s)
    }

    fn deserialize(buf: &mut Cursor) -> (r: Result<Self>) {
        let r = take_bytes(buf);
        proof {
            if r is Ok {
                assert(r->Ok_0.deep_view() =~= r->Ok_0@);
            }
        }
        r
    }
}

/// Reading a string from `s`: a byte string that is valid UTF-8. One that is
/// not is reported as `UnexpectedEof`.
pub open spec fn parse_string(s: Seq<u8>) -> Result<(Seq<char>, int)> {
    match parse_bytes(s) {
        Ok((b, n)) => if valid_utf8(b) {
            Ok((decode_utf8(b), n))
        } else {
            Err(Error::UnexpectedEof)
        },
        Err(e) => Err(e),
    }
}

/// `String::from_utf8` of the standard library: the string whose UTF-8
/// encoding is `bytes`, or nothing where `bytes` is not valid UTF-8.
#[verifier::external_body]
pub(crate) fn string_from_utf8(bytes: Vec<u8>) -> (r: Option<String>)
    ensures
        r is Some <==> valid_utf8(bytes@),
        r is Some ==> r->Some_0@ == decode_utf8(bytes@),
{
    match String::from_utf8(bytes) {
        Ok(s) => Some(s),
        Err(_) => None,
    }
}

impl Deserializable for String {
    open spec fn parse(s: Seq<u8>) -> Result<(Seq<char>, int)> {
        parse_string(s)
    }

    fn deserialize(buf: &mut Cursor) -> (r: Result<Self>) {
        match take_bytes(buf) {
            Ok(bytes) => match string_from_utf8(bytes) {
                Some(s) => Ok(s),
                None => Err(Error::UnexpectedEof),
            },
            Err(e) => Err(e),
        }
    }
}

// ─── vectors ─────────────────────────────────────────────────────────────────
/// Reading `count` items, one after the other, from `s`.
pub open spec fn parse_items<T: Deserializable>(s: Seq<u8>, count: nat) -> Result<
    (Seq<T::V>, int),
>
    decreases count,
{
    if count == 0 {
        Ok((Seq::empty(), 0))
    } else {
        match T::parse(s) {
            Err(e) => Err(e),
            Ok((v, n)) => match parse_items::<T>(s.skip(n), (count - 1) as nat) {
                Err(e) => Err(e),
                Ok((vs, m)) => Ok((seq![v] + vs, n + m)),
            },
        }
    }
}

/// The number of items that a count field announces. A negative count is
/// read as the large unsigned number with the same bits.
pub open spec fn item_count(field: i32) -> nat {
    (field as usize) as nat
}

/// Reading a count and that many items from `s`.
pub open spec fn parse_counted<T: Deserializable>(s: Seq<u8>) -> Result<(Seq<T::V>, int)> {
    match parse_u32(s) {
        Err(e) => Err(e),
        Ok((c, n)) => match parse_items::<T>(s.skip(n), item_count(as_i32(c))) {
            Err(e) => Err(e),
            Ok((vs, m)) => Ok((vs, n + m)),
        },
    }
}

/// Reads a count and that many items at the cursor.
#[verifier::loop_isolation(false)]
pub fn take_counted<T: Deserializable>(buf: &mut Cursor) -> (r: Result<Vec<T>>)
    ensures
        final(buf).data() == old(buf).data(),
        old(buf).spec_pos() <= final(buf).spec_pos() <= old(buf).data().len(),
        match parse_counted::<T>(old(buf).rest()) {
            Ok((v, n)) => r is Ok && r->Ok_0.deep_view() == v && final(buf).spec_pos() == old(buf).spec_pos() + n,
            Err(e) => r is Err && r->Err_0 == e,
        },
{
    let field = match take_u32(buf) {
        Ok(c) => #[verifier::truncate] (c as i32),
        Err(e) => {
            return Err(e);
        },
    };
    let count: usize = #[verifier::truncate] (field as usize);
    let ghost start = buf.rest();
    let ghost start_pos = buf.spec_pos();
    assert(start =~= old(buf).rest().skip(4));
    let mut out: Vec<T> = Vec::new();
    let mut i: usize = 0;
    while i < count
        invariant
            i <= count,
            buf.data() == old(buf).data(),
            start == buf.data().skip(start_pos as int),
            start_pos <= buf.spec_pos() <= buf.data().len(),
            match parse_items::<T>(buf.rest(), (count - i) as nat) {
                Ok((vs, m)) => parse_items::<T>(start, count as nat) == Ok::<(Seq<T::V>, int), Error>(
                    (out.deep_view() + vs, buf.spec_pos() - start_pos + m),
                ),
                Err(e) => parse_items::<T>(start, count as nat) == Err::<(Seq<T::V>, int), Error>(
                    e,
                ),
            },
        decreases count - i,
    {
        let ghost before = buf.rest();
        let ghost before_pos = buf.spec_pos();
        let ghost acc = out.deep_view();
        match T::deserialize(buf) {
            Ok(v) => {
                proof {
                    let n = buf.spec_pos() - before_pos;
                    assert(buf.rest() =~= before.skip(n));
                    let tail = parse_items::<T>(buf.rest(), (count - i - 1) as nat);
                    if tail is Ok {
                        assert(acc.push(v.deep_view()) + tail->Ok_0.0 =~= acc + (seq![
                            v.deep_view(),
                        ] + tail->Ok_0.0));
                    }
                }
                out.push(v);
                assert(out.deep_view() =~= acc.push(v.deep_view()));
            },
            Err(e) => {
                return Err(e);
            },
        }
        i += 1;
    }
    proof {
        assert(out.deep_view() + Seq::<T::V>::empty() =~= out.deep_view());
    }
    Ok(out)
}

/// Reading a boxed vector from `s`: the vector's constructor ID, a count and
/// the items.
pub open spec fn parse_vector<T: Deserializable>(s: Seq<u8>) -> Result<(Seq<T::V>, int)> {
    match parse_u32(s) {
        Err(e) => Err(e),
        Ok((id, n)) => if id != VECTOR_ID {
            Err(Error::UnexpectedConstructor { id })
        } else {
            match parse_counted::<T>(s.skip(n)) {
                Err(e) => Err(e),
                Ok((vs, m)) => Ok((vs, n + m)),
            }
        },
    }
}

impl<T: Deserializable> Deserializable for Vec<T> {
    open spec fn parse(s: Seq<u8>) -> Result<(Seq<T::V>, int)> {
        parse_vector::<T>(s)
    }

    fn deserialize(buf: &mut Cursor) -> (r: Result<Self>) {
        let id = match take_u32(buf) {
            Ok(id) => id,
            Err(e) => {
                return Err(e);
            },
        };
        if id != VECTOR_ID {
            return Err(Error::UnexpectedConstructor { id });
        }
        assert(buf.rest() =~= old(buf).rest().skip(4));
        take_counted::<T>(buf)
    }
}

impl<T: Deserializable> Deserializable for RawVec<T> {
    open spec fn parse(s: Seq<u8>) -> Result<(Seq<T::V>, int)> {
        parse_counted::<T>(s)
    }

    fn deserialize(buf: &mut Cursor) -> (r: Result<Self>) {
        match take_counted::<T>(buf) {
            Ok(v) => Ok(RawVec(v)),
            Err(e) => Err(e),
        }
    }
}

} // verus!

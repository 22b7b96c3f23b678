//! Writing values in their binary form.

use vstd::prelude::*;
use vstd::utf8::encode_utf8;
use vstd::string::StringSliceAdditionalSpecFns;
use crate::tl::wire::{le32, le64, push_all, push_le32, push_le64};
use crate::tl::deserialize::{BOOL_FALSE_ID, BOOL_TRUE_ID, VECTOR_ID};
use crate::tl::RawVec;

verus! {

/// A type that can be written in binary form.
pub trait Serializable: DeepView {
    /// The binary form of a value.
    spec fn ser(v: Self::V) -> Seq<u8>;

    /// Appends the binary form of `self` to `buf`.
    fn serialize(&self, buf: &mut Vec<u8>)
        ensures
            final(buf)@ == old(buf)@ + Self::ser(self.deep_view()),
    ;

    /// The binary form of `self` in a fresh vector.
    fn to_bytes(&self) -> (v: Vec<u8>)
        ensures
            v@ == Self::ser(self.deep_view()),
    {
        let mut v: Vec<u8> = Vec::new();
        self.serialize(&mut v);
        v
    }
}

// ─── bool and integers ───────────────────────────────────────────────────────
impl Serializable for bool {
    open spec fn ser(v: bool) -> Seq<u8> {
        if v {
            le32(BOOL_TRUE_ID)
        } else {
            le32(BOOL_FALSE_ID)
        }
    }

    fn serialize(&self, buf: &mut Vec<u8>) {
        let id: u32 = if *self {
            BOOL_TRUE_ID
        } else {
            BOOL_FALSE_ID
        };
        push_le32(buf, id);
    }
}

impl Serializable for i32 {
    open spec fn ser(v: i32) -> Seq<u8> {
        le32(v as u32)
    }

    fn serialize(&self, buf: &mut Vec<u8>) {
        push_le32(buf, #[verifier::truncate] (*self as u32));
    }
}

impl Serializable for u32 {
    open spec fn ser(v: u32) -> Seq<u8> {
        le32(v)
    }

    fn serialize(&self, buf: &mut Vec<u8>) {
        push_le32(buf, *self);
    }
}

impl Serializable for i64 {
    open spec fn ser(v: i64) -> Seq<u8> {
        le64(v as u64)
    }

    fn serialize(&self, buf: &mut Vec<u8>) {
        push_le64(buf, #[verifier::truncate] (*self as u64));
    }
}

impl Serializable for [u8; 16] {
    open spec fn ser(v: Seq<u8>) -> Seq<u8> {
        v
    }

    fn serialize(&self, buf: &mut Vec<u8>) {
        assert(self.deep_view() =~= self@);
        push_all(buf, self.as_slice());
    }
}

impl Serializable for [u8; 32] {
    open spec fn ser(v: Seq<u8>) -> Seq<u8> {
        v
    }

    fn serialize(&self, buf: &mut Vec<u8>) {
        assert(self.deep_view() =~= self@);
        push_all(buf, self.as_slice());
    }
}

// ─── byte strings ────────────────────────────────────────────────────────────
/// Number of zero bytes that bring `total` bytes up to a multiple of four.
pub open spec fn pad_to_4(total: int) -> int {
    (4 - total % 4) % 4
}

/// Length of the prefix that announces a byte string of `len` bytes.
pub open spec fn header_len(len: int) -> int {
    if len <= 253 {
        1
    } else {
        4
    }
}

/// The prefix that announces a byte string of `len` bytes: one length byte up
/// to 253, else the marker `0xfe` and the low 24 bits of the length.
pub open spec fn bytes_header(len: int) -> Seq<u8> {
    if len <= 253 {
        seq![len as u8]
    } else {
        let n = len as usize;
        seq![0xfeu8, (n & 0xff) as u8, ((n >> 8) & 0xff) as u8, ((n >> 16) & 0xff) as u8]
    }
}

/// `n` zero bytes.
pub open spec fn zeros(n: int) -> Seq<u8> {
    Seq::new(n as nat, |i: int| 0u8)
}

/// The binary form of a byte string: prefix, data, zero padding.
pub open spec fn ser_bytes(data: Seq<u8>) -> Seq<u8> {
    bytes_header(data.len() as int) + data + zeros(
        pad_to_4(header_len(data.len() as int) + data.len()),
    )
}

/// Appends the binary form of the byte string `data` to `buf`.
pub fn write_bytes(data: &[u8], buf: &mut Vec<u8>)
    ensures
        final(buf)@ == old(buf)@ + ser_bytes(data@),
{
    let len = data.len();
    let head: usize = if len <= 253 {
        buf.push(len as u8);
        1
    } else {
        buf.push(0xfe);
        buf.push((len & 0xff) as u8);
        buf.push(((len >> 8) & 0xff) as u8);
        buf.push(((len >> 16) & 0xff) as u8);
        4
    };
    assert(buf@ =~= old(buf)@ + bytes_header(len as int));
    push_all(buf, data);
    let padding: usize = (4 - ((head + len % 4) % 4)) % 4;
    assert(padding == pad_to_4(head + len));
    let ghost before = buf@;
    let mut i: usize = 0;
    while i < padding
        invariant
            i <= padding,
            buf@ == before + zeros(i as int),
        decreases padding - i,
    {
        buf.push(0u8);
        assert(buf@ =~= before + zeros(i as int + 1));
        i += 1;
    }
    assert(buf@ =~= old(buf)@ + ser_bytes(data@));
}

impl Serializable for &[u8] {
    open spec fn ser(v: Seq<u8>) -> Seq<u8> {
        ser_bytes(v)
    }

    fn serialize(&self, buf: &mut Vec<u8>) {
        assert(self.deep_view() =~= self@);
        write_bytes(*self, buf);
    }
}

impl Serializable for Vec<u8> {
    open spec fn ser(v: Seq<u8>) -> Seq<u8> {
        ser_bytes(v)
    }

    fn serialize(&self, buf: &mut Vec<u8>) {
        assert(self.deep_view() =~= self@);
        write_bytes(self.as_slice(), buf);
    }
}

impl Serializable for String {
    open spec fn ser(v: Seq<char>) -> Seq<u8> {
        ser_bytes(encode_utf8(v))
    }

    fn serialize(&self, buf: &mut Vec<u8>) {
        write_bytes(self.as_str().as_bytes(), buf);
    }
}

// ─── vectors and options ─────────────────────────────────────────────────────
/// The binary forms of the items of `s`, one after the other.
pub open spec fn ser_items<T: Serializable>(s: Seq<T::V>) -> Seq<u8>
    decreases s.len(),
{
    if s.len() == 0 {
        Seq::empty()
    } else {
        ser_items::<T>(s.drop_last()) + T::ser(s.last())
    }
}

/// The count that precedes the items of a vector of `len` items.
pub open spec fn ser_count(len: usize) -> Seq<u8> {
    le32((len as i32) as u32)
}

/// Appends the count and the items of `items` to `buf`.
pub fn write_items<T: Serializable>(items: &Vec<T>, buf: &mut Vec<u8>)
    ensures
        final(buf)@ == old(buf)@ + ser_count(items.len()) + ser_items::<T>(items.deep_view()),
{
    let count: i32 = #[verifier::truncate] (items.len() as i32);
    push_le32(buf, #[verifier::truncate] (count as u32));
    let mut i: usize = 0;
    while i < items.len()
        invariant
            i <= items.len(),
            buf@ == old(buf)@ + ser_count(items.len()) + ser_items::<T>(
                items.deep_view().take(i as int),
            ),
        decreases items.len() - i,
    {
        items[i].serialize(buf);
        proof {
            let a = items.deep_view().take(i as int);
            let b = items.deep_view().take(i as int + 1);
            assert(b.drop_last() =~= a);
            assert(b.last() == items[i as int].deep_view());
        }
        i += 1;
    }
    proof {
        assert(items.deep_view().take(items.len() as int) =~= items.deep_view());
    }
}

impl<T: Serializable> Serializable for Vec<T> {
    open spec fn ser(v: Seq<T::V>) -> Seq<u8> {
        le32(VECTOR_ID) + ser_count(v.len() as usize) + ser_items::<T>(v)
    }

    fn serialize(&self, buf: &mut Vec<u8>) {
        push_le32(buf, VECTOR_ID);
        write_items(self, buf);
        assert(self.deep_view().len() == self.len());
    }
}

impl<T: Serializable> Serializable for RawVec<T> {
    open spec fn ser(v: Seq<T::V>) -> Seq<u8> {
        ser_count(v.len() as usize) + ser_items::<T>(v)
    }

    fn serialize(&self, buf: &mut Vec<u8>) {
        write_items(&self.0, buf);
        assert(self.0.deep_view().len() == self.0.len());
    }
}

impl<T: Serializable> Serializable for Option<T> {
    open spec fn ser(v: Option<T::V>) -> Seq<u8> {
        match v {
            Some(x) => T::ser(x),
            None => Seq::empty(),
        }
    }

    fn serialize(&self, buf: &mut Vec<u8>) {
        match self {
            Some(v) => {
                v.serialize(buf);
            },
            None => {
                assert(buf@ =~= old(buf)@ + Seq::<u8>::empty());
            },
        }
    }
}

} // verus!

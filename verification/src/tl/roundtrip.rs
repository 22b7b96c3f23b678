//! What is written can be read back: the law that ties the two halves of the
//! codec together, proved for every built-in type.

use vstd::prelude::*;
use vstd::utf8::{decode_utf8, encode_utf8, encode_utf8_decode_utf8, encode_utf8_valid_utf8, valid_utf8};
use crate::tl::deserialize::{
    item_count, join24, parse_bytes, parse_counted, parse_items, parse_u32, parse_u64,
    Deserializable, Error, BOOL_FALSE_ID, BOOL_TRUE_ID, VECTOR_ID,
};
use crate::tl::serialize::{
    bytes_header, header_len, pad_to_4, ser_bytes, ser_count, ser_items, zeros, Serializable,
};
use crate::tl::wire::{
    as_i32, as_i64, from_le32, from_le64, le32, le64, lemma_i32_bits, lemma_i64_bits,
    lemma_le32_roundtrip, lemma_le64_roundtrip,
};
use crate::tl::RawVec;

verus! {

/// A type whose written form reads back as the value that was written.
pub trait Codec: Serializable + Deserializable {
    /// The values whose written form holds all of them: a length that fits
    /// the field that carries it, items that are themselves representable.
    spec fn representable(v: Self::V) -> bool;

    /// Reading the written form of `v`, whatever follows it, gives `v` and
    /// stops right behind it.
    proof fn lemma_roundtrip(v: Self::V, rest: Seq<u8>)
        requires
            Self::representable(v),
        ensures
            Self::parse(Self::ser(v) + rest) == Ok::<(Self::V, int), Error>(
                (v, Self::ser(v).len() as int),
            ),
    ;
}

/// Reading a written `u32` gives it back.
pub proof fn lemma_u32_roundtrip(v: u32, rest: Seq<u8>)
    ensures
        parse_u32(le32(v) + rest) == Ok::<(u32, int), Error>((v, 4)),
{
    lemma_le32_roundtrip(v);
    let s = le32(v) + rest;
    assert(s[0] == le32(v)[0] && s[1] == le32(v)[1] && s[2] == le32(v)[2] && s[3] == le32(v)[3]);
}

/// Reading a written `u64` gives it back.
pub proof fn lemma_u64_roundtrip(v: u64, rest: Seq<u8>)
    ensures
        parse_u64(le64(v) + rest) == Ok::<(u64, int), Error>((v, 8)),
{
    lemma_le64_roundtrip(v);
    let s = le64(v) + rest;
    assert(s[0] == le64(v)[0] && s[1] == le64(v)[1] && s[2] == le64(v)[2] && s[3] == le64(v)[3]
        && s[4] == le64(v)[4] && s[5] == le64(v)[5] && s[6] == le64(v)[6] && s[7] == le64(v)[7]);
}

impl Codec for u32 {
    open spec fn representable(v: u32) -> bool {
        true
    }

    proof fn lemma_roundtrip(v: u32, rest: Seq<u8>) {
        lemma_u32_roundtrip(v, rest);
    }
}

impl Codec for i32 {
    open spec fn representable(v: i32) -> bool {
        true
    }

    proof fn lemma_roundtrip(v: i32, rest: Seq<u8>) {
        lemma_u32_roundtrip(v as u32, rest);
        lemma_i32_bits(v);
    }
}

impl Codec for i64 {
    open spec fn representable(v: i64) -> bool {
        true
    }

    proof fn lemma_roundtrip(v: i64, rest: Seq<u8>) {
        lemma_u64_roundtrip(v as u64, rest);
        lemma_i64_bits(v);
    }
}

impl Codec for bool {
    open spec fn representable(v: bool) -> bool {
        true
    }

    proof fn lemma_roundtrip(v: bool, rest: Seq<u8>) {
        lemma_u32_roundtrip(BOOL_TRUE_ID, rest);
        lemma_u32_roundtrip(BOOL_FALSE_ID, rest);
    }
}

impl Codec for [u8; 16] {
    open spec fn representable(v: Seq<u8>) -> bool {
        v.len() == 16
    }

    proof fn lemma_roundtrip(v: Seq<u8>, rest: Seq<u8>) {
        assert((v + rest).take(16) =~= v);
    }
}

impl Codec for [u8; 32] {
    open spec fn representable(v: Seq<u8>) -> bool {
        v.len() == 32
    }

    proof fn lemma_roundtrip(v: Seq<u8>, rest: Seq<u8>) {
        assert((v + rest).take(32) =~= v);
    }
}

/// The longest byte string whose length the 24-bit length field can carry.
pub const MAX_BYTES_LEN: usize = 0xff_ffff;

/// The written form of a byte string is a whole number of 4-byte words.
pub proof fn lemma_bytes_aligned(data: Seq<u8>)
    ensures
        ser_bytes(data).len() % 4 == 0,
        ser_bytes(data).len() == header_len(data.len() as int) + data.len() + pad_to_4(
            header_len(data.len() as int) + data.len(),
        ),
{
}

/// Reading a written byte string gives it back.
pub proof fn lemma_bytes_roundtrip(data: Seq<u8>, rest: Seq<u8>)
    requires
        data.len() <= MAX_BYTES_LEN,
    ensures
        parse_bytes(ser_bytes(data) + rest) == Ok::<(Seq<u8>, int), Error>(
            (data, ser_bytes(data).len() as int),
        ),
{
    let len = data.len() as usize;
    let s = ser_bytes(data) + rest;
    let head = header_len(len as int);
    lemma_bytes_aligned(data);
    assert(s[0] == bytes_header(len as int)[0]);
    if len <= 253 {
        assert(s.subrange(head, head + len) =~= data);
    } else {
        assert(s[1] == bytes_header(len as int)[1]);
        assert(s[2] == bytes_header(len as int)[2]);
        assert(s[3] == bytes_header(len as int)[3]);
        assert(join24((len & 0xff) as u8, ((len >> 8) & 0xff) as u8, ((len >> 16) & 0xff) as u8)
            == len) by (bit_vector)
            requires
                len <= 0xff_ffff,
        ;
        assert(s.subrange(head, head + len) =~= data);
    }
}

impl Codec for Vec<u8> {
    open spec fn representable(v: Seq<u8>) -> bool {
        v.len() <= MAX_BYTES_LEN
    }

    proof fn lemma_roundtrip(v: Seq<u8>, rest: Seq<u8>) {
        lemma_bytes_roundtrip(v, rest);
    }
}

impl Codec for String {
    open spec fn representable(v: Seq<char>) -> bool {
        encode_utf8(v).len() <= MAX_BYTES_LEN
    }

    proof fn lemma_roundtrip(v: Seq<char>, rest: Seq<u8>) {
        lemma_bytes_roundtrip(encode_utf8(v), rest);
        encode_utf8_valid_utf8(v);
        encode_utf8_decode_utf8(v);
    }
}

/// The longest vector whose length the signed 32-bit count can carry.
pub const MAX_VECTOR_LEN: usize = 0x7fff_ffff;

/// Every item of `v` is representable.
pub open spec fn all_representable<T: Codec>(v: Seq<T::V>) -> bool {
    forall|i: int| 0 <= i < v.len() ==> T::representable(#[trigger] v[i])
}

/// The written form of a sequence starts with the written form of its first
/// item.
pub proof fn lemma_ser_items_head<T: Serializable>(x: T::V, xs: Seq<T::V>)
    ensures
        ser_items::<T>(seq![x] + xs) == T::ser(x) + ser_items::<T>(xs),
    decreases xs.len(),
{
    let all = seq![x] + xs;
    if xs.len() == 0 {
        assert(all.drop_last() =~= Seq::<T::V>::empty());
        assert(ser_items::<T>(all.drop_last()) =~= Seq::<u8>::empty());
        assert(all.last() == x);
        assert(ser_items::<T>(all) =~= T::ser(x) + ser_items::<T>(xs));
    } else {
        assert(all.drop_last() =~= seq![x] + xs.drop_last());
        assert(all.last() == xs.last());
        lemma_ser_items_head::<T>(x, xs.drop_last());
        assert(ser_items::<T>(all) =~= T::ser(x) + ser_items::<T>(xs));
    }
}

/// Reading as many items as were written gives them back.
pub proof fn lemma_items_roundtrip<T: Codec>(v: Seq<T::V>, rest: Seq<u8>)
    requires
        all_representable::<T>(v),
    ensures
        parse_items::<T>(ser_items::<T>(v) + rest, v.len()) == Ok::<(Seq<T::V>, int), Error>(
            (v, ser_items::<T>(v).len() as int),
        ),
    decreases v.len(),
{
    if v.len() == 0 {
        assert(v =~= Seq::<T::V>::empty());
    } else {
        let x = v[0];
        let xs = v.skip(1);
        assert(v =~= seq![x] + xs);
        lemma_ser_items_head::<T>(x, xs);
        let tail = ser_items::<T>(xs) + rest;
        assert(ser_items::<T>(v) + rest =~= T::ser(x) + tail);
        T::lemma_roundtrip(x, tail);
        assert((T::ser(x) + tail).skip(T::ser(x).len() as int) =~= tail);
        assert(all_representable::<T>(xs)) by {
            assert forall|i: int| 0 <= i < xs.len() implies T::representable(#[trigger] xs[i]) by {
                assert(xs[i] == v[i + 1]);
            }
        }
        lemma_items_roundtrip::<T>(xs, rest);
    }
}

/// Reading a written count and items gives the items back.
pub proof fn lemma_counted_roundtrip<T: Codec>(v: Seq<T::V>, rest: Seq<u8>)
    requires
        v.len() <= MAX_VECTOR_LEN,
        all_representable::<T>(v),
    ensures
        parse_counted::<T>(ser_count(v.len() as usize) + ser_items::<T>(v) + rest) == Ok::<
            (Seq<T::V>, int),
            Error,
        >((v, 4 + ser_items::<T>(v).len() as int)),
{
    let len = v.len() as usize;
    let field = (len as i32) as u32;
    let tail = ser_items::<T>(v) + rest;
    let s = ser_count(len) + ser_items::<T>(v) + rest;
    assert(s =~= le32(field) + tail);
    lemma_u32_roundtrip(field, tail);
    assert(s.skip(4) =~= tail);
    assert((((len as i32) as u32) as i32) as usize == len) by (bit_vector)
        requires
            len <= 0x7fff_ffff,
    ;
    assert(item_count(as_i32(field)) == v.len());
    lemma_items_roundtrip::<T>(v, rest);
}

impl<T: Codec> Codec for Vec<T> {
    open spec fn representable(v: Seq<T::V>) -> bool {
        v.len() <= MAX_VECTOR_LEN && all_representable::<T>(v)
    }

    proof fn lemma_roundtrip(v: Seq<T::V>, rest: Seq<u8>) {
        let body = ser_count(v.len() as usize) + ser_items::<T>(v);
        let s = Self::ser(v) + rest;
        assert(s =~= le32(VECTOR_ID) + (body + rest));
        lemma_u32_roundtrip(VECTOR_ID, body + rest);
        assert(s.skip(4) =~= body + rest);
        lemma_counted_roundtrip::<T>(v, rest);
    }
}

impl<T: Codec> Codec for RawVec<T> {
    open spec fn representable(v: Seq<T::V>) -> bool {
        v.len() <= MAX_VECTOR_LEN && all_representable::<T>(v)
    }

    proof fn lemma_roundtrip(v: Seq<T::V>, rest: Seq<u8>) {
        lemma_counted_roundtrip::<T>(v, rest);
    }
}

/// Writing an absent optional value writes nothing; writing a present one
/// writes the value.
pub proof fn lemma_option_passthrough<T: Serializable>(v: Option<T::V>)
    ensures
        v is None ==> Option::<T>::ser(v) == Seq::<u8>::empty(),
        v is Some ==> Option::<T>::ser(v) == T::ser(v->Some_0),
{
}

/// A buffer that ends before an integer does gives `UnexpectedEof`.
pub proof fn lemma_truncated_integers(s: Seq<u8>)
    ensures
        s.len() < 4 ==> u32::parse(s) == Err::<(u32, int), Error>(Error::UnexpectedEof),
        s.len() < 4 ==> i32::parse(s) == Err::<(i32, int), Error>(Error::UnexpectedEof),
        s.len() < 4 ==> bool::parse(s) == Err::<(bool, int), Error>(Error::UnexpectedEof),
        s.len() < 8 ==> i64::parse(s) == Err::<(i64, int), Error>(Error::UnexpectedEof),
        s.len() < 16 ==> <[u8; 16]>::parse(s) == Err::<(Seq<u8>, int), Error>(
            Error::UnexpectedEof,
        ),
        s.len() < 32 ==> <[u8; 32]>::parse(s) == Err::<(Seq<u8>, int), Error>(
            Error::UnexpectedEof,
        ),
{
}

/// A written byte string that is cut short, anywhere, gives
/// `UnexpectedEof`.
pub proof fn lemma_truncated_bytes(data: Seq<u8>, k: int)
    requires
        data.len() <= MAX_BYTES_LEN,
        0 <= k < ser_bytes(data).len(),
    ensures
        parse_bytes(ser_bytes(data).take(k)) == Err::<(Seq<u8>, int), Error>(Error::UnexpectedEof),
{
    let len = data.len() as usize;
    let full = ser_bytes(data);
    let s = full.take(k);
    lemma_bytes_aligned(data);
    if k > 0 {
        assert(s[0] == bytes_header(len as int)[0]);
        if len > 253 && k >= 4 {
            assert(s[1] == bytes_header(len as int)[1]);
            assert(s[2] == bytes_header(len as int)[2]);
            assert(s[3] == bytes_header(len as int)[3]);
            assert(join24(
                (len & 0xff) as u8,
                ((len >> 8) & 0xff) as u8,
                ((len >> 16) & 0xff) as u8,
            ) == len) by (bit_vector)
                requires
                    len <= 0xff_ffff,
            ;
        }
    }
}

/// A boxed value whose constructor ID is not that of its type is refused
/// with the ID that was found.
pub proof fn lemma_wrong_constructor(s: Seq<u8>)
    requires
        s.len() >= 4,
    ensures
        from_le32(s) != BOOL_TRUE_ID && from_le32(s) != BOOL_FALSE_ID ==> bool::parse(s) == Err::<
            (bool, int),
            Error,
        >(Error::UnexpectedConstructor { id: from_le32(s) }),
        from_le32(s) != VECTOR_ID ==> Vec::<i32>::parse(s) == Err::<(Seq<i32>, int), Error>(
            Error::UnexpectedConstructor { id: from_le32(s) },
        ),
{
}

} // verus!

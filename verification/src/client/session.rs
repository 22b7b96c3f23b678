//! What is stored of a session between runs: per datacenter the address,
//! the authorization key, the first salt and the time offset.
//!
//! ```text
//! home_dc_id: i32 LE
//! dc_count:   u8
//! for each DC:
//!   dc_id:        i32 LE
//!   has_key:      u8 (0 or 1)
//!   auth_key:     256 B   (only if has_key == 1)
//!   first_salt:   i64 LE
//!   time_offset:  i32 LE
//!   addr_len:     u8
//!   addr:         utf-8 bytes
//! ```

use vstd::prelude::*;
use vstd::utf8::{decode_utf8, encode_utf8, encode_utf8_decode_utf8, encode_utf8_valid_utf8, valid_utf8};
use crate::text::str_copy;
use crate::tl::wire::{
    as_i32, as_i64, copy_range, from_le32, from_le64, le32, le64, lemma_i32_bits, lemma_i64_bits,
    lemma_le32_roundtrip, lemma_le64_roundtrip, load_array, push_all, push_le32, push_le64,
    read_le32, read_le64,
};

verus! {

/// What is stored of one datacenter.
#[derive(Debug)]
pub struct DcEntry {
    pub dc_id: i32,
    pub addr: String,
    pub auth_key: Option<[u8; 256]>,
    pub first_salt: i64,
    pub time_offset: i32,
}

/// A datacenter entry as contracts see it.
pub struct DcEntryView {
    pub dc_id: i32,
    pub addr: Seq<char>,
    pub auth_key: Option<Seq<u8>>,
    pub first_salt: i64,
    pub time_offset: i32,
}

impl View for DcEntry {
    type V = DcEntryView;

    open spec fn view(&self) -> DcEntryView {
        DcEntryView {
            dc_id: self.dc_id,
            addr: self.addr@,
            auth_key: match self.auth_key {
                Some(k) => Some(k@),
                None => None,
            },
            first_salt: self.first_salt,
            time_offset: self.time_offset,
        }
    }
}

impl Clone for DcEntry {
    fn clone(&self) -> (c: Self)
        ensures
            c@ == self@,
    {
        DcEntry {
            dc_id: self.dc_id,
            addr: str_copy(self.addr.as_str()),
            auth_key: self.auth_key,
            first_salt: self.first_salt,
            time_offset: self.time_offset,
        }
    }
}

/// A stored session: the home datacenter and the table of datacenters.
#[derive(Debug)]
pub struct PersistedSession {
    pub home_dc_id: i32,
    pub dcs: Vec<DcEntry>,
}

/// The entries of a table as contracts see them.
pub open spec fn entries_view(dcs: Seq<DcEntry>) -> Seq<DcEntryView> {
    Seq::new(dcs.len(), |i: int| dcs[i]@)
}

/// `String::from_utf8_lossy` of the standard library: the text that the
/// bytes decode to, with a replacement character for whatever is not UTF-8.
pub uninterp spec fn spec_utf8_lossy(bytes: Seq<u8>) -> Seq<char>;

/// `String::from_utf8_lossy` of the standard library, as an owned string.
#[verifier::external_body]
pub(crate) fn utf8_lossy(bytes: &[u8]) -> (s: String)
    ensures
        s@ == spec_utf8_lossy(bytes@),
{
    String::from_utf8_lossy(bytes).into_owned()
}

/// The text of `bytes`: what they decode to where they are UTF-8, else
/// their lenient decoding.
pub open spec fn spec_lenient_text(bytes: Seq<u8>) -> Seq<char> {
    if valid_utf8(bytes) {
        decode_utf8(bytes)
    } else {
        spec_utf8_lossy(bytes)
    }
}

/// The text of `bytes`.
pub fn lenient_text(bytes: &[u8]) -> (s: String)
    ensures
        s@ == spec_lenient_text(bytes@),
{
    let copy = copy_range(bytes, 0, bytes.len());
    assert(copy@ =~= bytes@);
    match crate::tl::deserialize::string_from_utf8(copy) {
        Some(s) => s,
        None => utf8_lossy(bytes),
    }
}

/// The stored form of one entry.
#[verifier::opaque]
pub open spec fn spec_encode_entry(e: DcEntryView) -> Seq<u8> {
    le32(e.dc_id as u32) + (match e.auth_key {
        Some(k) => seq![1u8] + k,
        None => seq![0u8],
    }) + le64(e.first_salt as u64) + le32(e.time_offset as u32) + seq![
        encode_utf8(e.addr).len() as u8,
    ] + encode_utf8(e.addr)
}

/// The stored forms of the entries `dcs`, one after the other.
pub open spec fn spec_encode_entries(dcs: Seq<DcEntryView>) -> Seq<u8>
    decreases dcs.len(),
{
    if dcs.len() == 0 {
        Seq::empty()
    } else {
        spec_encode_entries(dcs.drop_last()) + spec_encode_entry(dcs.last())
    }
}

/// The stored form of a session.
pub open spec fn spec_encode_session(home_dc_id: i32, dcs: Seq<DcEntryView>) -> Seq<u8> {
    le32(home_dc_id as u32) + seq![dcs.len() as u8] + spec_encode_entries(dcs)
}

/// Reading one entry from the start of `s`: the entry and its length, or
/// nothing where `s` ends too early. A key is present where the flag byte is
/// 1; the address is decoded leniently.
#[verifier::opaque]
pub open spec fn spec_decode_entry(s: Seq<u8>) -> Option<(DcEntryView, int)> {
    if s.len() < 5 {
        None
    } else {
        let dc_id = as_i32(from_le32(s));
        let has_key = s[4] == 1;
        let key_len: int = if has_key {
            256
        } else {
            0
        };
        if s.len() < 5 + key_len + 13 {
            None
        } else {
            let at = 5 + key_len;
            let first_salt = as_i64(from_le64(s.skip(at)));
            let time_offset = as_i32(from_le32(s.skip(at + 8)));
            let addr_len = s[at + 12] as int;
            if s.len() < at + 13 + addr_len {
                None
            } else {
                Some(
                    (
                        DcEntryView {
                            dc_id,
                            addr: spec_lenient_text(s.subrange(at + 13, at + 13 + addr_len)),
                            auth_key: if has_key {
                                Some(s.subrange(5, 261))
                            } else {
                                None
                            },
                            first_salt,
                            time_offset,
                        },
                        at + 13 + addr_len,
                    ),
                )
            }
        }
    }
}

/// Reading `count` entries from the start of `s`.
pub open spec fn spec_decode_entries(s: Seq<u8>, count: nat) -> Option<Seq<DcEntryView>>
    decreases count,
{
    if count == 0 {
        Some(Seq::empty())
    } else {
        match spec_decode_entry(s) {
            None => None,
            Some((e, n)) => match spec_decode_entries(s.skip(n), (count - 1) as nat) {
                None => None,
                Some(rest) => Some(seq![e] + rest),
            },
        }
    }
}

/// Reading a stored session: the home datacenter and the entries, or
/// nothing where the bytes end too early.
pub open spec fn spec_decode_session(s: Seq<u8>) -> Option<(i32, Seq<DcEntryView>)> {
    if s.len() < 5 {
        None
    } else {
        match spec_decode_entries(s.skip(5), s[4] as nat) {
            None => None,
            Some(dcs) => Some((as_i32(from_le32(s)), dcs)),
        }
    }
}

/// Appends the stored form of `e` to `b`.
fn encode_entry(e: &DcEntry, b: &mut Vec<u8>)
    ensures
        final(b)@ == old(b)@ + spec_encode_entry(e@),
{
    push_le32(b, #[verifier::truncate] (e.dc_id as u32));
    match &e.auth_key {
        Some(k) => {
            b.push(1u8);
            push_all(b, k.as_slice());
        },
        None => {
            b.push(0u8);
        },
    }
    push_le64(b, #[verifier::truncate] (e.first_salt as u64));
    push_le32(b, #[verifier::truncate] (e.time_offset as u32));
    let ab = e.addr.as_str().as_bytes();
    b.push(#[verifier::truncate] (ab.len() as u8));
    push_all(b, ab);
    reveal(spec_encode_entry);
    assert(b@ =~= old(b)@ + spec_encode_entry(e@));
}

/// Reads one entry at `at`.
fn decode_entry(buf: &[u8], at: usize) -> (r: Option<(DcEntry, usize)>)
    requires
        at <= buf@.len(),
    ensures
        match spec_decode_entry(buf@.skip(at as int)) {
            Some((e, n)) => r is Some && r->Some_0.0@ == e && r->Some_0.1 == at + n && at < at
                + n <= buf@.len(),
            None => r is None,
        },
{
    let ghost s = buf@.skip(at as int);
    reveal(spec_decode_entry);
    let left = buf.len() - at;
    if left < 5 {
        return None;
    }
    let dc_id = #[verifier::truncate] (read_le32(buf, at) as i32);
    let has_key = buf[at + 4] == 1;
    assert(s[4] == buf@[at + 4]);
    let key_len: usize = if has_key {
        256
    } else {
        0
    };
    if left < 5 + key_len + 13 {
        return None;
    }
    let auth_key: Option<[u8; 256]> = if has_key {
        let k = load_array::<256>(buf, at + 5);
        assert(k@ =~= s.subrange(5, 261));
        Some(k)
    } else {
        None
    };
    let p = at + 5 + key_len;
    let first_salt = #[verifier::truncate] (read_le64(buf, p) as i64);
    assert(buf@.skip(p as int) =~= s.skip(5 + key_len));
    let time_offset = #[verifier::truncate] (read_le32(buf, p + 8) as i32);
    assert(buf@.skip(p + 8) =~= s.skip(5 + key_len + 8));
    let addr_len = buf[p + 12] as usize;
    assert(s[5 + key_len + 12] == buf@[p + 12]);
    if left - (5 + key_len + 13) < addr_len {
        return None;
    }
    let raw = copy_range(buf, p + 13, p + 13 + addr_len);
    assert(raw@ =~= s.subrange(5 + key_len + 13, 5 + key_len + 13 + addr_len));
    let addr = lenient_text(raw.as_slice());
    Some((DcEntry { dc_id, addr, auth_key, first_salt, time_offset }, p + 13 + addr_len))
}

impl PersistedSession {
    /// The stored form of the session. Only the low 8 bits of the number of
    /// entries and of an address's length are stored.
    pub fn to_bytes(&self) -> (b: Vec<u8>)
        ensures
            b@ == spec_encode_session(self.home_dc_id, entries_view(self.dcs@)),
    {
        let mut b: Vec<u8> = Vec::new();
        push_le32(&mut b, #[verifier::truncate] (self.home_dc_id as u32));
        b.push(#[verifier::truncate] (self.dcs.len() as u8));
        let ghost head = b@;
        let mut i: usize = 0;
        assert(entries_view(self.dcs@).take(0) =~= Seq::<DcEntryView>::empty());
        while i < self.dcs.len()
            invariant
                i <= self.dcs.len(),
                b@ == head + spec_encode_entries(entries_view(self.dcs@).take(i as int)),
            decreases self.dcs.len() - i,
        {
            encode_entry(&self.dcs[i], &mut b);
            proof {
                let all = entries_view(self.dcs@);
                assert(all.take(i as int + 1).drop_last() =~= all.take(i as int));
                assert(all.take(i as int + 1).last() == self.dcs@[i as int]@);
            }
            i += 1;
        }
        assert(entries_view(self.dcs@).take(self.dcs.len() as int) =~= entries_view(self.dcs@));
        assert(entries_view(self.dcs@).len() == self.dcs@.len());
        b
    }

    /// Reads a stored session; nothing where `buf` ends too early.
    #[verifier::loop_isolation(false)]
    pub fn from_bytes(buf: &[u8]) -> (r: Option<Self>)
        ensures
            match spec_decode_session(buf@) {
                Some((home, dcs)) => r is Some && r->Some_0.home_dc_id == home && entries_view(
                    r->Some_0.dcs@,
                ) == dcs,
                None => r is None,
            },
    {
        if buf.len() < 5 {
            return None;
        }
        let home_dc_id = #[verifier::truncate] (read_le32(buf, 0) as i32);
        assert(buf@.skip(0) =~= buf@);
        let count = buf[4] as usize;
        let mut dcs: Vec<DcEntry> = Vec::new();
        let mut at: usize = 5;
        let mut i: usize = 0;
        let ghost start = buf@.skip(5);
        while i < count
            invariant
                i <= count,
                5 <= at <= buf@.len(),
                start == buf@.skip(5),
                match spec_decode_entries(buf@.skip(at as int), (count - i) as nat) {
                    Some(rest) => spec_decode_entries(start, count as nat) == Some(
                        entries_view(dcs@) + rest,
                    ),
                    None => spec_decode_entries(start, count as nat) is None,
                },
            decreases count - i,
        {
            let ghost before = entries_view(dcs@);
            match decode_entry(buf, at) {
                Some((e, next)) => {
                    proof {
                        assert(buf@.skip(at as int).skip(next - at) =~= buf@.skip(next as int));
                        let tail = spec_decode_entries(
                            buf@.skip(next as int),
                            (count - i - 1) as nat,
                        );
                        if tail is Some {
                            assert(before.push(e@) + tail->Some_0 =~= before + (seq![e@]
                                + tail->Some_0));
                        }
                    }
                    dcs.push(e);
                    assert(entries_view(dcs@) =~= before.push(e@));
                    at = next;
                },
                None => {
                    return None;
                },
            }
            i += 1;
        }
        assert(entries_view(dcs@) + Seq::<DcEntryView>::empty() =~= entries_view(dcs@));
        Some(PersistedSession { home_dc_id, dcs })
    }

    /// A copy of the session.
    pub fn duplicate(&self) -> (c: Self)
        ensures
            c.home_dc_id == self.home_dc_id,
            entries_view(c.dcs@) == entries_view(self.dcs@),
    {
        let mut dcs: Vec<DcEntry> = Vec::new();
        let mut i: usize = 0;
        while i < self.dcs.len()
            invariant
                i <= self.dcs.len(),
                dcs@.len() == i,
                forall|k: int| 0 <= k < i ==> dcs@[k]@ == self.dcs@[k]@,
            decreases self.dcs.len() - i,
        {
            dcs.push(self.dcs[i].clone());
            i += 1;
        }
        assert(entries_view(dcs@) =~= entries_view(self.dcs@));
        PersistedSession { home_dc_id: self.home_dc_id, dcs }
    }
}

/// An entry whose stored form holds all of it: the address is at most 255
/// bytes long and a key has 256 bytes.
pub open spec fn storable(e: DcEntryView) -> bool {
    &&& encode_utf8(e.addr).len() <= 255
    &&& e.auth_key is Some ==> e.auth_key->Some_0.len() == 256
}

/// Reading the stored form of an entry, whatever follows it, gives the
/// entry back.
pub proof fn lemma_entry_roundtrip(e: DcEntryView, rest: Seq<u8>)
    requires
        storable(e),
    ensures
        spec_decode_entry(spec_encode_entry(e) + rest) == Some(
            (e, spec_encode_entry(e).len() as int),
        ),
{
    reveal(spec_encode_entry);
    reveal(spec_decode_entry);
    let s = spec_encode_entry(e) + rest;
    let addr = encode_utf8(e.addr);
    let key_len: int = if e.auth_key is Some {
        256
    } else {
        0
    };
    let at = 5 + key_len;
    lemma_le32_roundtrip(e.dc_id as u32);
    lemma_i32_bits(e.dc_id);
    lemma_le64_roundtrip(e.first_salt as u64);
    lemma_i64_bits(e.first_salt);
    lemma_le32_roundtrip(e.time_offset as u32);
    lemma_i32_bits(e.time_offset);
    let id = le32(e.dc_id as u32);
    assert(s[0] == id[0] && s[1] == id[1] && s[2] == id[2] && s[3] == id[3]);
    assert(s[4] == if e.auth_key is Some {
        1u8
    } else {
        0u8
    });
    let salt = le64(e.first_salt as u64);
    let t = s.skip(at);
    assert(t[0] == salt[0] && t[1] == salt[1] && t[2] == salt[2] && t[3] == salt[3] && t[4]
        == salt[4] && t[5] == salt[5] && t[6] == salt[6] && t[7] == salt[7]);
    let off = le32(e.time_offset as u32);
    let u = s.skip(at + 8);
    assert(u[0] == off[0] && u[1] == off[1] && u[2] == off[2] && u[3] == off[3]);
    assert(s[at + 12] == addr.len() as u8);
    assert(s.subrange(at + 13, at + 13 + addr.len()) =~= addr);
    if e.auth_key is Some {
        assert(s.subrange(5, 261) =~= e.auth_key->Some_0);
    }
    encode_utf8_valid_utf8(e.addr);
    encode_utf8_decode_utf8(e.addr);
}

/// The stored form of a table starts with the stored form of its first
/// entry.
pub proof fn lemma_encode_entries_head(e: DcEntryView, rest: Seq<DcEntryView>)
    ensures
        spec_encode_entries(seq![e] + rest) == spec_encode_entry(e) + spec_encode_entries(rest),
    decreases rest.len(),
{
    let all = seq![e] + rest;
    if rest.len() == 0 {
        assert(all.drop_last() =~= Seq::<DcEntryView>::empty());
        assert(all.last() == e);
        assert(spec_encode_entries(all.drop_last()) =~= Seq::<u8>::empty());
        assert(spec_encode_entries(rest) =~= Seq::<u8>::empty());
        assert(spec_encode_entries(all) =~= spec_encode_entry(e) + spec_encode_entries(rest));
    } else {
        assert(all.drop_last() =~= seq![e] + rest.drop_last());
        assert(all.last() == rest.last());
        lemma_encode_entries_head(e, rest.drop_last());
        assert(spec_encode_entries(all) =~= spec_encode_entry(e) + spec_encode_entries(rest));
    }
}

/// Reading as many entries as were stored gives them back.
pub proof fn lemma_entries_roundtrip(dcs: Seq<DcEntryView>, rest: Seq<u8>)
    requires
        forall|i: int| 0 <= i < dcs.len() ==> storable(#[trigger] dcs[i]),
    ensures
        spec_decode_entries(spec_encode_entries(dcs) + rest, dcs.len()) == Some(dcs),
    decreases dcs.len(),
{
    if dcs.len() == 0 {
        assert(dcs =~= Seq::<DcEntryView>::empty());
    } else {
        let e = dcs[0];
        let tail = dcs.skip(1);
        assert(dcs =~= seq![e] + tail);
        lemma_encode_entries_head(e, tail);
        let after = spec_encode_entries(tail) + rest;
        assert(spec_encode_entries(dcs) + rest =~= spec_encode_entry(e) + after);
        lemma_entry_roundtrip(e, after);
        assert((spec_encode_entry(e) + after).skip(spec_encode_entry(e).len() as int) =~= after);
        assert forall|i: int| 0 <= i < tail.len() implies storable(#[trigger] tail[i]) by {
            assert(tail[i] == dcs[i + 1]);
        }
        lemma_entries_roundtrip(tail, rest);
    }
}

/// A stored session is read back as it was: the home datacenter and every
/// entry, for up to 255 entries that each can be stored whole.
pub proof fn lemma_session_roundtrip(home_dc_id: i32, dcs: Seq<DcEntryView>)
    requires
        dcs.len() <= 255,
        forall|i: int| 0 <= i < dcs.len() ==> storable(#[trigger] dcs[i]),
    ensures
        spec_decode_session(spec_encode_session(home_dc_id, dcs)) == Some((home_dc_id, dcs)),
{
    let s = spec_encode_session(home_dc_id, dcs);
    lemma_le32_roundtrip(home_dc_id as u32);
    lemma_i32_bits(home_dc_id);
    let id = le32(home_dc_id as u32);
    assert(s[0] == id[0] && s[1] == id[1] && s[2] == id[2] && s[3] == id[3]);
    assert(s[4] == dcs.len() as u8);
    assert(s.skip(5) =~= spec_encode_entries(dcs) + Seq::<u8>::empty());
    lemma_entries_roundtrip(dcs, Seq::<u8>::empty());
}

} // verus!

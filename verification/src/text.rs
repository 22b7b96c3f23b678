//! Byte-string helpers for the text that the protocol carries: searching,
//! prefixes and suffixes, decimal numbers.

use vstd::prelude::*;
use vstd::string::StringSliceAdditionalSpecFns;
use vstd::utf8::{
    encode_utf8, encode_utf8_valid_utf8, is_char_boundary, is_char_boundary_iff_not_is_continuation_byte,
    is_char_boundary_start_end_of_seq, valid_utf8,
};

verus! {

/// `a` starts with `b`.
pub open spec fn spec_starts_with(a: Seq<u8>, b: Seq<u8>) -> bool {
    b.len() <= a.len() && a.take(b.len() as int) == b
}

/// `a` ends with `b`.
pub open spec fn spec_ends_with(a: Seq<u8>, b: Seq<u8>) -> bool {
    b.len() <= a.len() && a.skip(a.len() - b.len()) == b
}

/// Whether `a` starts with `b`.
pub fn starts_with(a: &[u8], b: &[u8]) -> (r: bool)
    ensures
        r == spec_starts_with(a@, b@),
{
    if b.len() > a.len() {
        return false;
    }
    let n = b.len();
    let mut i: usize = 0;
    while i < n
        invariant
            i <= n,
            n == b@.len(),
            n <= a@.len(),
            forall|k: int| 0 <= k < i ==> a@[k] == b@[k],
        decreases n - i,
    {
        if a[i] != b[i] {
            assert(a@.take(n as int)[i as int] != b@[i as int]);
            return false;
        }
        i += 1;
    }
    assert(a@.take(n as int) =~= b@);
    true
}

/// Whether `a` ends with `b`.
pub fn ends_with(a: &[u8], b: &[u8]) -> (r: bool)
    ensures
        r == spec_ends_with(a@, b@),
{
    if b.len() > a.len() {
        return false;
    }
    let n = b.len();
    let total = a.len();
    let off = total - n;
    let mut i: usize = 0;
    while i < n
        invariant
            i <= n,
            n == b@.len(),
            off + n == total,
            total == a@.len(),
            forall|k: int| 0 <= k < i ==> a@[off + k] == b@[k],
        decreases n - i,
    {
        if a[off + i] != b[i] {
            assert(a@.skip(off as int)[i as int] != b@[i as int]);
            return false;
        }
        i += 1;
    }
    assert(a@.skip(off as int) =~= b@);
    true
}

/// The last place where `c` stands in `b`.
pub open spec fn last_index_of(b: Seq<u8>, c: u8) -> Option<int>
    decreases b.len(),
{
    if b.len() == 0 {
        None
    } else if b.last() == c {
        Some(b.len() - 1)
    } else {
        last_index_of(b.drop_last(), c)
    }
}

/// The first place at or after `from` where `c` stands in `b`.
pub open spec fn index_of_from(b: Seq<u8>, c: u8, from: int) -> Option<int>
    decreases b.len() - from,
{
    if from < 0 || from >= b.len() {
        None
    } else if b[from] == c {
        Some(from)
    } else {
        index_of_from(b, c, from + 1)
    }
}

/// Finds the last `c` in `b`.
pub fn rfind(b: &[u8], c: u8) -> (r: Option<usize>)
    ensures
        match last_index_of(b@, c) {
            Some(i) => r is Some && r->Some_0 as int == i && 0 <= i < b@.len() && b@[i] == c,
            None => r is None,
        },
{
    let mut i: usize = b.len();
    assert(b@.take(i as int) =~= b@);
    while i > 0
        invariant
            i <= b@.len(),
            last_index_of(b@, c) == last_index_of(b@.take(i as int), c),
        decreases i,
    {
        i -= 1;
        assert(b@.take(i as int + 1).last() == b@[i as int]);
        if b[i] == c {
            return Some(i);
        }
        assert(b@.take(i as int + 1).drop_last() =~= b@.take(i as int));
    }
    None
}

/// Finds the first `c` in `b` at or after `from`.
pub fn find_from(b: &[u8], c: u8, from: usize) -> (r: Option<usize>)
    ensures
        match index_of_from(b@, c, from as int) {
            Some(i) => r is Some && r->Some_0 as int == i && from <= i < b@.len() && b@[i] == c,
            None => r is None,
        },
{
    let mut i: usize = from;
    while i < b.len()
        invariant
            from <= i,
            index_of_from(b@, c, from as int) == index_of_from(b@, c, i as int),
        decreases b@.len() - i,
    {
        if b[i] == c {
            return Some(i);
        }
        i += 1;
    }
    None
}

/// `c` is an ASCII digit.
pub open spec fn is_digit(c: u8) -> bool {
    0x30 <= c <= 0x39
}

/// Every byte of `s` is an ASCII digit.
pub open spec fn all_digits(s: Seq<u8>) -> bool {
    forall|i: int| 0 <= i < s.len() ==> is_digit(#[trigger] s[i])
}

/// The number that the decimal digits `s` write.
pub open spec fn decimal_value(s: Seq<u8>) -> nat
    decreases s.len(),
{
    if s.len() == 0 {
        0
    } else {
        decimal_value(s.drop_last()) * 10 + (s.last() - 0x30) as nat
    }
}

/// Whether every byte of `s` is an ASCII digit.
pub fn is_all_digits(s: &[u8]) -> (r: bool)
    ensures
        r == all_digits(s@),
{
    let mut i: usize = 0;
    while i < s.len()
        invariant
            i <= s@.len(),
            forall|k: int| 0 <= k < i ==> is_digit(#[trigger] s@[k]),
        decreases s@.len() - i,
    {
        if s[i] < 0x30 || s[i] > 0x39 {
            assert(!is_digit(s@[i as int]));
            return false;
        }
        i += 1;
    }
    true
}

/// The number that the decimal digits `s` write, if it fits 32 bits.
pub fn parse_decimal_u32(s: &[u8]) -> (r: Option<u32>)
    requires
        all_digits(s@),
    ensures
        decimal_value(s@) <= u32::MAX ==> r == Some(decimal_value(s@) as u32),
        decimal_value(s@) > u32::MAX ==> r is None,
{
    let limit: u64 = 0x1_0000_0000;
    let mut acc: u64 = 0;
    let mut i: usize = 0;
    assert(s@.take(0) =~= Seq::<u8>::empty());
    while i < s.len()
        invariant
            i <= s@.len(),
            all_digits(s@),
            limit == 0x1_0000_0000,
            acc <= limit,
            acc < limit ==> acc == decimal_value(s@.take(i as int)),
            acc == limit ==> decimal_value(s@.take(i as int)) >= limit,
        decreases s@.len() - i,
    {
        let d = (s[i] - 0x30) as u64;
        proof {
            let cur = s@.take(i as int + 1);
            assert(cur.drop_last() =~= s@.take(i as int));
            assert(cur.last() == s@[i as int]);
            assert(is_digit(s@[i as int]));
        }
        if acc < limit {
            acc = acc * 10 + d;
            if acc > limit {
                acc = limit;
            }
        }
        i += 1;
    }
    assert(s@.take(s@.len() as int) =~= s@);
    if acc < limit {
        Some(acc as u32)
    } else {
        None
    }
}

/// The part of `s` before the byte offset `at`, which must stand before an
/// ASCII byte or at the end.
pub fn str_prefix(s: &str, at: usize) -> (p: String)
    requires
        at <= s.spec_bytes().len(),
        at < s.spec_bytes().len() ==> s.spec_bytes()[at as int] < 0x80,
    ensures
        encode_utf8(p@) == s.spec_bytes().take(at as int),
{
    proof {
        encode_utf8_valid_utf8(s@);
        if at < s.spec_bytes().len() {
            is_char_boundary_iff_not_is_continuation_byte(s.spec_bytes(), at as int);
        } else {
            is_char_boundary_start_end_of_seq(s.spec_bytes());
        }
    }
    let (head, _) = s.split_at(at);
    let p = head.to_owned();
    assert(encode_utf8(p@) =~= s.spec_bytes().take(at as int));
    p
}

/// A copy of `s`.
pub fn str_copy(s: &str) -> (p: String)
    ensures
        p@ == s@,
        encode_utf8(p@) == s.spec_bytes(),
{
    s.to_owned()
}

/// Whether two strings are the same text.
pub fn str_eq(a: &str, b: &str) -> (same: bool)
    ensures
        same == (a.spec_bytes() == b.spec_bytes()),
{
    crate::tl::wire::bytes_eq(a.as_bytes(), b.as_bytes())
}

// ─── whitespace ──────────────────────────────────────────────────────────────
/// `b` is ASCII whitespace: space, tab, line feed, vertical tab, form feed
/// or carriage return.
pub open spec fn is_ws(b: u8) -> bool {
    b == 0x20 || (9 <= b <= 13)
}

/// Whether `b` is ASCII whitespace.
pub fn is_space(b: u8) -> (r: bool)
    ensures
        r == is_ws(b),
{
    b == 0x20 || (9 <= b && b <= 13)
}

/// The bytes of the white-space character that starts at the place `i` of
/// the UTF-8 text `s`; zero where none starts there. White space is what
/// has the Unicode property `White_Space`: the ASCII white space, U+0085,
/// U+00A0, U+1680, U+2000 to U+200A, U+2028, U+2029, U+202F, U+205F, U+3000.
pub open spec fn space_len(s: Seq<u8>, i: int) -> int {
    if i < 0 || i >= s.len() {
        0
    } else if is_ws(s[i]) {
        1
    } else if i + 1 < s.len() && s[i] == 0xc2 && (s[i + 1] == 0x85 || s[i + 1] == 0xa0) {
        2
    } else if i + 2 < s.len() && ((s[i] == 0xe1 && s[i + 1] == 0x9a && s[i + 2] == 0x80) || (s[i]
        == 0xe2 && s[i + 1] == 0x80 && ((0x80 <= s[i + 2] <= 0x8a) || s[i + 2] == 0xa8 || s[i + 2]
        == 0xa9 || s[i + 2] == 0xaf)) || (s[i] == 0xe2 && s[i + 1] == 0x81 && s[i + 2] == 0x9f)
        || (s[i] == 0xe3 && s[i + 1] == 0x80 && s[i + 2] == 0x80)) {
        3
    } else {
        0
    }
}

/// The bytes of the white-space character that ends just before the place
/// `j`; zero where none ends there.
pub open spec fn space_len_before(s: Seq<u8>, j: int) -> int {
    if space_len(s, j - 1) == 1 {
        1
    } else if space_len(s, j - 2) == 2 {
        2
    } else if space_len(s, j - 3) == 3 {
        3
    } else {
        0
    }
}

/// The bytes of the white-space character that starts at the place `i`.
pub fn space_len_at(s: &[u8], i: usize) -> (n: usize)
    requires
        i <= s@.len(),
    ensures
        n == space_len(s@, i as int),
        i + n <= s@.len(),
{
    let total = s.len();
    if i >= total {
        return 0;
    }
    let b = s[i];
    if is_space(b) {
        return 1;
    }
    if total - i > 1 && b == 0xc2 && (s[i + 1] == 0x85 || s[i + 1] == 0xa0) {
        return 2;
    }
    if total - i > 2 {
        let c = s[i + 1];
        let d = s[i + 2];
        if (b == 0xe1 && c == 0x9a && d == 0x80) || (b == 0xe2 && c == 0x80 && ((0x80 <= d && d
            <= 0x8a) || d == 0xa8 || d == 0xa9 || d == 0xaf)) || (b == 0xe2 && c == 0x81 && d
            == 0x9f) || (b == 0xe3 && c == 0x80 && d == 0x80) {
            return 3;
        }
    }
    0
}

/// The bytes of the white-space character that ends just before the place
/// `j`.
pub fn space_len_ending(s: &[u8], j: usize) -> (n: usize)
    requires
        j <= s@.len(),
    ensures
        n == space_len_before(s@, j as int),
        n <= j,
{
    if j >= 1 && space_len_at(s, j - 1) == 1 {
        1
    } else if j >= 2 && space_len_at(s, j - 2) == 2 {
        2
    } else if j >= 3 && space_len_at(s, j - 3) == 3 {
        3
    } else {
        0
    }
}

/// The first place at or after `i` where no white space starts; the length
/// of `s` if there is none.
pub open spec fn first_non_ws(s: Seq<u8>, i: int) -> int
    decreases s.len() - i,
{
    if i < 0 || i >= s.len() {
        s.len() as int
    } else if space_len(s, i) == 0 {
        i
    } else {
        first_non_ws(s, i + space_len(s, i))
    }
}

/// The first place at or after `i` where white space starts; the length of
/// `s` if there is none.
pub open spec fn first_ws(s: Seq<u8>, i: int) -> int
    decreases s.len() - i,
{
    if i < 0 || i >= s.len() {
        s.len() as int
    } else if space_len(s, i) > 0 {
        i
    } else {
        first_ws(s, i + 1)
    }
}

/// The end of the last stretch without white space that ends at or before
/// `j`; zero if there is none.
pub open spec fn last_non_ws_end(s: Seq<u8>, j: int) -> int
    decreases j,
{
    if j <= 0 || j > s.len() {
        0
    } else if space_len_before(s, j) == 0 {
        j
    } else {
        last_non_ws_end(s, j - space_len_before(s, j))
    }
}

/// `s` without the white space at its ends.
pub open spec fn trim(s: Seq<u8>) -> Seq<u8> {
    let a = first_non_ws(s, 0);
    let b = last_non_ws_end(s, s.len() as int);
    if a >= b {
        Seq::empty()
    } else {
        s.subrange(a, b)
    }
}

/// `s` without the white space at its start.
pub open spec fn trim_start(s: Seq<u8>) -> Seq<u8> {
    s.skip(first_non_ws(s, 0))
}

/// Finds the first place at or after `i` where no white space starts.
pub fn skip_spaces(s: &[u8], i: usize) -> (r: usize)
    requires
        i <= s@.len(),
    ensures
        r == first_non_ws(s@, i as int),
        i <= r <= s@.len(),
        space_len(s@, r as int) == 0,
{
    let total = s.len();
    let mut k: usize = i;
    loop
        invariant_except_break
            i <= k <= total,
            total == s@.len(),
            first_non_ws(s@, i as int) == first_non_ws(s@, k as int),
        ensures
            i <= k <= total,
            k == first_non_ws(s@, i as int),
            space_len(s@, k as int) == 0,
        decreases total - k,
    {
        let n = space_len_at(s, k);
        if n == 0 {
            break ;
        }
        k += n;
    }
    k
}

/// Finds the first place at or after `i` where white space starts.
pub fn skip_token(s: &[u8], i: usize) -> (r: usize)
    requires
        i <= s@.len(),
    ensures
        r == first_ws(s@, i as int),
        i <= r <= s@.len(),
        r < s@.len() ==> space_len(s@, r as int) > 0,
{
    let total = s.len();
    let mut k: usize = i;
    loop
        invariant_except_break
            i <= k <= total,
            total == s@.len(),
            first_ws(s@, i as int) == first_ws(s@, k as int),
        ensures
            i <= k <= total,
            k == first_ws(s@, i as int),
            k < total ==> space_len(s@, k as int) > 0,
        decreases total - k,
    {
        if k >= total || space_len_at(s, k) > 0 {
            break ;
        }
        k += 1;
    }
    k
}

/// Finds the end of the last stretch without white space that ends at or
/// before `j`.
pub fn back_over_spaces(s: &[u8], j: usize) -> (r: usize)
    requires
        j <= s@.len(),
    ensures
        r == last_non_ws_end(s@, j as int),
        r <= j,
{
    let mut k: usize = j;
    loop
        invariant_except_break
            k <= j <= s@.len(),
            last_non_ws_end(s@, j as int) == last_non_ws_end(s@, k as int),
        ensures
            k <= j,
            k == last_non_ws_end(s@, j as int),
        decreases k,
    {
        if k == 0 {
            break ;
        }
        let n = space_len_ending(s, k);
        if n == 0 {
            break ;
        }
        k -= n;
    }
    k
}

/// A copy of `s` without the whitespace at its ends.
pub fn trimmed(s: &[u8]) -> (out: Vec<u8>)
    ensures
        out@ == trim(s@),
{
    let a = skip_spaces(s, 0);
    let b = back_over_spaces(s, s.len());
    if a >= b {
        Vec::new()
    } else {
        crate::tl::wire::copy_range(s, a, b)
    }
}

/// The stretches without whitespace in `s` from `i` on, in order.
pub open spec fn tokens_from(s: Seq<u8>, i: int) -> Seq<Seq<u8>>
    decreases s.len() - i,
{
    let a = first_non_ws(s, i);
    if i < 0 || a < i || a >= s.len() {
        Seq::empty()
    } else {
        let b = first_ws(s, a);
        if b <= a || b > s.len() {
            Seq::empty()
        } else {
            seq![s.subrange(a, b)] + tokens_from(s, b)
        }
    }
}

/// The stretches without whitespace in `s`, in order.
pub open spec fn tokens(s: Seq<u8>) -> Seq<Seq<u8>> {
    tokens_from(s, 0)
}

/// The byte strings of `v`.
pub open spec fn views(v: Seq<Vec<u8>>) -> Seq<Seq<u8>> {
    Seq::new(v.len(), |i: int| v[i]@)
}

/// Splits `s` into its stretches without whitespace.
pub fn split_whitespace(s: &[u8]) -> (out: Vec<Vec<u8>>)
    ensures
        views(out@) == tokens(s@),
{
    let mut out: Vec<Vec<u8>> = Vec::new();
    let mut i: usize = 0;
    assert(views(out@) =~= Seq::<Seq<u8>>::empty());
    loop
        invariant_except_break
            i <= s@.len(),
            tokens(s@) == views(out@) + tokens_from(s@, i as int),
        ensures
            views(out@) == tokens(s@),
        decreases s@.len() - i,
    {
        let a = skip_spaces(s, i);
        if a >= s.len() {
            assert(tokens_from(s@, i as int) =~= Seq::<Seq<u8>>::empty());
            assert(views(out@) + Seq::<Seq<u8>>::empty() =~= views(out@));
            break ;
        }
        let b = skip_token(s, a);
        assert(b > a) by {
            assert(space_len(s@, a as int) == 0);
        }
        let ghost before = views(out@);
        out.push(crate::tl::wire::copy_range(s, a, b));
        proof {
            assert(views(out@) =~= before.push(s@.subrange(a as int, b as int)));
            assert(before + (seq![s@.subrange(a as int, b as int)] + tokens_from(s@, b as int))
                =~= before.push(s@.subrange(a as int, b as int)) + tokens_from(s@, b as int));
        }
        i = b;
    }
    out
}

/// The pieces of `s` between the occurrences of `c`.
pub open spec fn split_on(s: Seq<u8>, c: u8) -> Seq<Seq<u8>>
    decreases s.len(),
{
    match index_of_from(s, c, 0) {
        None => seq![s],
        Some(i) => if 0 <= i < s.len() {
            seq![s.take(i)] + split_on(s.skip(i + 1), c)
        } else {
            seq![s]
        },
    }
}

/// Looking for `c` from `from` on in `s` is looking for it from the start
/// in what follows `from`.
pub proof fn lemma_index_of_skip(s: Seq<u8>, c: u8, from: int, at: int)
    requires
        0 <= from <= at <= s.len(),
    ensures
        index_of_from(s.skip(from), c, at - from) == match index_of_from(s, c, at) {
            Some(i) => Some(i - from),
            None => None,
        },
    decreases s.len() - at,
{
    if at < s.len() {
        assert(s.skip(from)[at - from] == s[at]);
        if s[at] != c {
            lemma_index_of_skip(s, c, from, at + 1);
        }
    }
}

/// Splits `s` at every `c`.
pub fn split(s: &[u8], c: u8) -> (out: Vec<Vec<u8>>)
    ensures
        views(out@) == split_on(s@, c),
        out@.len() >= 1,
{
    let mut out: Vec<Vec<u8>> = Vec::new();
    let mut start: usize = 0;
    let total = s.len();
    assert(views(out@) =~= Seq::<Seq<u8>>::empty());
    assert(s@.skip(0) =~= s@);
    loop
        invariant_except_break
            start <= s@.len(),
            total == s@.len(),
            split_on(s@, c) == views(out@) + split_on(s@.skip(start as int), c),
        ensures
            views(out@) == split_on(s@, c),
            out@.len() >= 1,
        decreases s@.len() - start,
    {
        let ghost before = views(out@);
        let ghost rest = s@.skip(start as int);
        proof {
            lemma_index_of_skip(s@, c, start as int, start as int);
        }
        match find_from(s, c, start) {
            Some(i) => {
                out.push(crate::tl::wire::copy_range(s, start, i));
                proof {
                    let piece = s@.subrange(start as int, i as int);
                    assert(piece =~= rest.take(i - start));
                    assert(rest.skip(i - start + 1) =~= s@.skip(i + 1));
                    assert(views(out@) =~= before.push(piece));
                    assert(before + (seq![piece] + split_on(s@.skip(i + 1), c)) =~= before.push(
                        piece,
                    ) + split_on(s@.skip(i + 1), c));
                }
                start = i + 1;
            },
            None => {
                out.push(crate::tl::wire::copy_range(s, start, s.len()));
                proof {
                    assert(s@.subrange(start as int, s@.len() as int) =~= rest);
                    assert(views(out@) =~= before.push(rest));
                    assert(before + seq![rest] =~= before.push(rest));
                }
                break ;
            },
        }
    }
    out
}

// ─── order ───────────────────────────────────────────────────────────────────
/// `a` stands before `b` in the order of byte strings: at the first place
/// where they differ `a` has the smaller byte, or `a` ends there and `b`
/// does not.
pub open spec fn lex_less(a: Seq<u8>, b: Seq<u8>) -> bool
    decreases a.len(),
{
    if b.len() == 0 {
        false
    } else if a.len() == 0 {
        true
    } else if a[0] != b[0] {
        a[0] < b[0]
    } else {
        lex_less(a.skip(1), b.skip(1))
    }
}

/// Whether `a` stands before `b` in the order of byte strings.
pub fn less_bytes(a: &[u8], b: &[u8]) -> (r: bool)
    ensures
        r == lex_less(a@, b@),
{
    let mut i: usize = 0;
    assert(a@.skip(0) =~= a@);
    assert(b@.skip(0) =~= b@);
    loop
        invariant
            i <= a@.len(),
            i <= b@.len(),
            lex_less(a@, b@) == lex_less(a@.skip(i as int), b@.skip(i as int)),
        decreases a@.len() - i,
    {
        if i >= b.len() {
            return false;
        }
        if i >= a.len() {
            return true;
        }
        assert(a@.skip(i as int)[0] == a@[i as int]);
        assert(b@.skip(i as int)[0] == b@[i as int]);
        if a[i] != b[i] {
            return a[i] < b[i];
        }
        assert(a@.skip(i as int).skip(1) =~= a@.skip(i as int + 1));
        assert(b@.skip(i as int).skip(1) =~= b@.skip(i as int + 1));
        i += 1;
    }
}

/// The first place in `list` whose string stands behind `x`; the length of
/// `list` if there is none.
pub open spec fn upper_bound(list: Seq<Seq<u8>>, x: Seq<u8>) -> int
    decreases list.len(),
{
    if list.len() == 0 {
        0
    } else if lex_less(x, list[0]) {
        0
    } else {
        1 + upper_bound(list.skip(1), x)
    }
}

/// `list` with `x` put in behind the strings that do not stand behind it.
pub open spec fn insert_sorted(list: Seq<Seq<u8>>, x: Seq<u8>) -> Seq<Seq<u8>> {
    list.insert(upper_bound(list, x), x)
}

/// The place of `upper_bound` lies within the list.
pub proof fn lemma_upper_bound_range(list: Seq<Seq<u8>>, x: Seq<u8>)
    ensures
        0 <= upper_bound(list, x) <= list.len(),
    decreases list.len(),
{
    if list.len() > 0 && !lex_less(x, list[0]) {
        lemma_upper_bound_range(list.skip(1), x);
    }
}

/// Finds the first place in `list` whose string stands behind `x`.
pub fn find_upper_bound(list: &Vec<Vec<u8>>, x: &[u8]) -> (r: usize)
    ensures
        r == upper_bound(views(list@), x@),
        r <= list@.len(),
{
    let ghost all = views(list@);
    let mut i: usize = 0;
    assert(all.skip(0) =~= all);
    while i < list.len()
        invariant
            i <= list@.len(),
            all == views(list@),
            upper_bound(all, x@) == i + upper_bound(all.skip(i as int), x@),
        decreases list@.len() - i,
    {
        assert(all.skip(i as int)[0] == list@[i as int]@);
        if less_bytes(x, list[i].as_slice()) {
            return i;
        }
        assert(all.skip(i as int).skip(1) =~= all.skip(i as int + 1));
        i += 1;
    }
    assert(all.skip(list@.len() as int) =~= Seq::<Seq<u8>>::empty());
    i
}

/// Whether `x` is one of `list`.
pub fn contains_bytes(list: &Vec<Vec<u8>>, x: &[u8]) -> (r: bool)
    ensures
        r == views(list@).contains(x@),
{
    let mut i: usize = 0;
    while i < list.len()
        invariant
            i <= list@.len(),
            forall|k: int| 0 <= k < i ==> views(list@)[k] != x@,
        decreases list@.len() - i,
    {
        if crate::tl::wire::bytes_eq(list[i].as_slice(), x) {
            assert(views(list@)[i as int] == x@);
            return true;
        }
        i += 1;
    }
    false
}

/// Puts `x` into `list` behind the strings that do not stand behind it.
pub fn insert_into_sorted(list: &mut Vec<Vec<u8>>, x: Vec<u8>)
    ensures
        views(final(list)@) == insert_sorted(views(old(list)@), x@),
{
    let at = find_upper_bound(list, x.as_slice());
    list.insert(at, x);
    assert(views(list@) =~= views(old(list)@).insert(at as int, x@));
}

// ─── numbers written out ─────────────────────────────────────────────────────
/// The natural number `n` in decimal.
pub open spec fn spec_decimal_nat(n: nat) -> Seq<u8>
    decreases n,
{
    if n < 10 {
        seq![(0x30 + n) as u8]
    } else {
        spec_decimal_nat(n / 10).push((0x30 + n % 10) as u8)
    }
}

/// The number `v` in decimal, with `-` before it where it is negative.
pub open spec fn spec_decimal_int(v: int) -> Seq<u8> {
    if v < 0 {
        seq![0x2du8] + spec_decimal_nat((-v) as nat)
    } else {
        spec_decimal_nat(v as nat)
    }
}

/// Appends `v` in decimal.
pub fn push_decimal_u64(out: &mut Vec<u8>, v: u64)
    ensures
        final(out)@ == old(out)@ + spec_decimal_nat(v as nat),
    decreases v,
{
    if v < 10 {
        out.push((0x30 + v) as u8);
        assert(out@ =~= old(out)@ + spec_decimal_nat(v as nat));
    } else {
        push_decimal_u64(out, v / 10);
        out.push((0x30 + v % 10) as u8);
        assert(out@ =~= old(out)@ + spec_decimal_nat(v as nat));
    }
}

/// Appends `v` in decimal, with its sign where it is negative.
pub fn push_decimal_i64(out: &mut Vec<u8>, v: i64)
    ensures
        final(out)@ == old(out)@ + spec_decimal_int(v as int),
{
    if v < 0 {
        out.push(0x2d);
        let magnitude: u64 = ((-(v + 1)) as u64) + 1;
        push_decimal_u64(out, magnitude);
        assert(out@ =~= old(out)@ + spec_decimal_int(v as int));
    } else {
        push_decimal_u64(out, v as u64);
    }
}

/// The number `v` in decimal, as text.
pub open spec fn spec_decimal_text(v: int) -> Seq<char> {
    crate::client::session::spec_lenient_text(spec_decimal_int(v))
}

/// The number `v` in decimal.
pub fn decimal_string(v: i64) -> (s: String)
    ensures
        s@ == spec_decimal_text(v as int),
{
    let mut out: Vec<u8> = Vec::new();
    push_decimal_i64(&mut out, v);
    assert(out@ =~= spec_decimal_int(v as int));
    crate::client::session::lenient_text(out.as_slice())
}

/// A string with the text `s`.
pub fn text_of(s: &str) -> (r: String)
    ensures
        r@ == s@,
{
    String::from_str(s)
}

/// The first `n` of the numbers `v` in decimal, with `, ` between them.
pub open spec fn spec_numbers(v: Seq<int>, n: int) -> Seq<u8>
    decreases n,
{
    if n <= 0 {
        Seq::empty()
    } else if n == 1 {
        spec_decimal_int(v[0])
    } else {
        spec_numbers(v, n - 1) + seq![0x2cu8, 0x20u8] + spec_decimal_int(v[n - 1])
    }
}

/// The numbers `v` as a list: in decimal, with `, ` between them, in square
/// brackets.
pub open spec fn spec_number_list(v: Seq<int>) -> Seq<u8> {
    seq![0x5bu8] + spec_numbers(v, v.len() as int) + seq![0x5du8]
}

/// The bytes `s` as numbers.
pub open spec fn numbers_of_bytes(s: Seq<u8>) -> Seq<int> {
    Seq::new(s.len(), |i: int| s[i] as int)
}

/// The integers `s` as numbers.
pub open spec fn numbers_of_i64(s: Seq<i64>) -> Seq<int> {
    Seq::new(s.len(), |i: int| s[i] as int)
}

/// Appends the bytes `s` as a list of numbers.
pub fn push_byte_list(out: &mut Vec<u8>, s: &[u8])
    ensures
        final(out)@ == old(out)@ + spec_number_list(numbers_of_bytes(s@)),
{
    let ghost v = numbers_of_bytes(s@);
    out.push(0x5b);
    let ghost head = out@;
    let mut i: usize = 0;
    assert(head + Seq::<u8>::empty() =~= head);
    while i < s.len()
        invariant
            i <= s@.len(),
            v == numbers_of_bytes(s@),
            out@ == head + spec_numbers(v, i as int),
        decreases s@.len() - i,
    {
        let ghost before = out@;
        if i > 0 {
            out.push(0x2c);
            out.push(0x20);
        }
        push_decimal_i64(out, s[i] as i64);
        assert(out@ =~= head + spec_numbers(v, i as int + 1));
        i += 1;
    }
    out.push(0x5d);
    assert(out@ =~= old(out)@ + spec_number_list(v));
}

/// Appends the integers `s` as a list of numbers.
pub fn push_i64_list(out: &mut Vec<u8>, s: &[i64])
    ensures
        final(out)@ == old(out)@ + spec_number_list(numbers_of_i64(s@)),
{
    let ghost v = numbers_of_i64(s@);
    out.push(0x5b);
    let ghost head = out@;
    let mut i: usize = 0;
    assert(head + Seq::<u8>::empty() =~= head);
    while i < s.len()
        invariant
            i <= s@.len(),
            v == numbers_of_i64(s@),
            out@ == head + spec_numbers(v, i as int),
        decreases s@.len() - i,
    {
        if i > 0 {
            out.push(0x2c);
            out.push(0x20);
        }
        push_decimal_i64(out, s[i]);
        assert(out@ =~= head + spec_numbers(v, i as int + 1));
        i += 1;
    }
    out.push(0x5d);
    assert(out@ =~= old(out)@ + spec_number_list(v));
}

// ─── white space of any script ───────────────────────────────────────────────
/// `c` has the Unicode property `White_Space`.
pub open spec fn is_white_space(c: char) -> bool {
    ||| c == ' '
    ||| ('\t' <= c && c <= '\r')
    ||| c == '\u{85}'
    ||| c == '\u{a0}'
    ||| c == '\u{1680}'
    ||| ('\u{2000}' <= c && c <= '\u{200a}')
    ||| c == '\u{2028}'
    ||| c == '\u{2029}'
    ||| c == '\u{202f}'
    ||| c == '\u{205f}'
    ||| c == '\u{3000}'
}

/// `s` without the white space at its start.
pub open spec fn trim_start_text(s: Seq<char>) -> Seq<char>
    decreases s.len(),
{
    if s.len() > 0 && is_white_space(s[0]) {
        trim_start_text(s.drop_first())
    } else {
        s
    }
}

/// `s` without the white space at its end.
pub open spec fn trim_end_text(s: Seq<char>) -> Seq<char>
    decreases s.len(),
{
    if s.len() > 0 && is_white_space(s.last()) {
        trim_end_text(s.drop_last())
    } else {
        s
    }
}

/// `s` without the white space at its ends.
pub open spec fn trim_text(s: Seq<char>) -> Seq<char> {
    trim_end_text(trim_start_text(s))
}

/// `str::trim` of the standard library: the text without the characters
/// at its start and at its end that have the Unicode property `White_Space`.
#[verifier::external_body]
pub(crate) fn trim_str(s: &str) -> (r: &str)
    ensures
        r@ == trim_text(s@),
{
    s.trim()
}

// ─── digits as characters ────────────────────────────────────────────────────
/// Every character of `s` is a decimal digit.
pub open spec fn digit_chars(s: Seq<char>) -> bool {
    forall|i: int| 0 <= i < s.len() ==> '0' <= #[trigger] s[i] <= '9'
}

/// A text of decimal digits is written in as many bytes, each a digit.
pub proof fn lemma_digits_encode(s: Seq<char>)
    requires
        digit_chars(s),
    ensures
        all_digits(encode_utf8(s)),
        encode_utf8(s).len() == s.len(),
{
    assert(vstd::utf8::is_ascii_chars(s));
    vstd::utf8::is_ascii_chars_encode_utf8(s);
    assert forall|i: int| 0 <= i < encode_utf8(s).len() implies is_digit(
        #[trigger] encode_utf8(s)[i],
    ) by {
        assert(s[i] as u8 == encode_utf8(s)[i]);
        assert('0' <= s[i] <= '9');
    }
}

} // verus!

//! Formatted text. Markdown and HTML are taken apart into plain text and
//! the formatting that lies over it, and put together again. Places and
//! lengths of formatting count UTF-16 code units; the text itself is handled
//! as UTF-8.

use vstd::prelude::*;
use vstd::string::StringSliceAdditionalSpecFns;
use vstd::utf8::encode_utf8;
use crate::client::api::enums::MessageEntity;
use crate::client::api::types::Span;
use crate::client::session::{lenient_text, spec_lenient_text};
use crate::text::{
    all_digits, back_over_spaces, push_decimal_i64, spec_decimal_int, decimal_value, find_from, first_non_ws, first_ws, index_of_from,
    is_digit, is_space, is_ws, last_non_ws_end, skip_spaces, skip_token, spec_starts_with,
    starts_with, trim, trim_start, trimmed,
};
use crate::tl::wire::{bytes_eq, copy_range, push_all};

verus! {

/// The longest text that is taken apart: every place in it, counted in
/// UTF-16 code units, fits 32 bits with a sign.
pub const MAX_TEXT: usize = 0x3fff_ffff;

// ─── formatting as contracts see it ──────────────────────────────────────────
/// A piece of formatting as contracts see it.
pub enum EntityView {
    Unknown(Span),
    Mention(Span),
    Hashtag(Span),
    BotCommand(Span),
    Url(Span),
    Email(Span),
    Bold(Span),
    Italic(Span),
    Code(Span),
    Pre { span: Span, language: Seq<char> },
    TextUrl { span: Span, url: Seq<char> },
    MentionName { span: Span, user_id: i64 },
    Underline(Span),
    Strike(Span),
    Blockquote(Span),
    Spoiler(Span),
    CustomEmoji { span: Span, document_id: i64 },
}

/// A piece of formatting as contracts see it.
pub open spec fn entity_view(e: MessageEntity) -> EntityView {
    match e {
        MessageEntity::Unknown(s) => EntityView::Unknown(s),
        MessageEntity::Mention(s) => EntityView::Mention(s),
        MessageEntity::Hashtag(s) => EntityView::Hashtag(s),
        MessageEntity::BotCommand(s) => EntityView::BotCommand(s),
        MessageEntity::Url(s) => EntityView::Url(s),
        MessageEntity::Email(s) => EntityView::Email(s),
        MessageEntity::Bold(s) => EntityView::Bold(s),
        MessageEntity::Italic(s) => EntityView::Italic(s),
        MessageEntity::Code(s) => EntityView::Code(s),
        MessageEntity::Pre { span, language } => EntityView::Pre { span, language: language@ },
        MessageEntity::TextUrl { span, url } => EntityView::TextUrl { span, url: url@ },
        MessageEntity::MentionName { span, user_id } => EntityView::MentionName { span, user_id },
        MessageEntity::Underline(s) => EntityView::Underline(s),
        MessageEntity::Strike(s) => EntityView::Strike(s),
        MessageEntity::Blockquote(s) => EntityView::Blockquote(s),
        MessageEntity::Spoiler(s) => EntityView::Spoiler(s),
        MessageEntity::CustomEmoji { span, document_id } => EntityView::CustomEmoji {
            span,
            document_id,
        },
    }
}

/// A list of formatting as contracts see it.
pub open spec fn entities_view(v: Seq<MessageEntity>) -> Seq<EntityView> {
    Seq::new(v.len(), |i: int| entity_view(v[i]))
}

// ─── UTF-16 code units ───────────────────────────────────────────────────────
/// The UTF-16 code units that a byte of UTF-8 accounts for: none for a
/// byte inside a character, two for the first byte of a character of four
/// bytes, one for every other first byte.
pub open spec fn units(b: u8) -> int {
    if 0x80 <= b < 0xc0 {
        0
    } else if b >= 0xf0 {
        2
    } else {
        1
    }
}

/// The UTF-16 code units that the bytes `s` account for.
pub open spec fn utf16_len(s: Seq<u8>) -> int
    decreases s.len(),
{
    if s.len() == 0 {
        0
    } else {
        utf16_len(s.drop_last()) + units(s.last())
    }
}

/// The units of two texts add up, and no text has more than two units for
/// each byte.
pub proof fn lemma_utf16_len(a: Seq<u8>, b: Seq<u8>)
    ensures
        utf16_len(a + b) == utf16_len(a) + utf16_len(b),
        0 <= utf16_len(a) <= 2 * a.len(),
    decreases a.len() + b.len(),
{
    if b.len() == 0 {
        assert(a + b =~= a);
        if a.len() > 0 {
            lemma_utf16_len(a.drop_last(), b);
        }
    } else {
        assert((a + b).drop_last() =~= a + b.drop_last());
        lemma_utf16_len(a, b.drop_last());
    }
}

/// Counts the UTF-16 code units of the bytes of `s` from `from` to `to`.
pub fn utf16_count(s: &[u8], from: usize, to: usize) -> (n: i32)
    requires
        from <= to <= s@.len(),
        s@.len() <= MAX_TEXT,
    ensures
        n == utf16_len(s@.subrange(from as int, to as int)),
{
    let mut n: i32 = 0;
    let mut i: usize = from;
    assert(s@.subrange(from as int, from as int) =~= Seq::<u8>::empty());
    while i < to
        invariant
            from <= i <= to <= s@.len(),
            s@.len() <= MAX_TEXT,
            n == utf16_len(s@.subrange(from as int, i as int)),
        decreases to - i,
    {
        proof {
            let cur = s@.subrange(from as int, i as int + 1);
            assert(cur.drop_last() =~= s@.subrange(from as int, i as int));
            assert(cur.last() == s@[i as int]);
            lemma_utf16_len(s@.subrange(from as int, i as int), Seq::<u8>::empty());
        }
        let b = s[i];
        if 0x80 <= b && b < 0xc0 {
        } else if b >= 0xf0 {
            n += 2;
        } else {
            n += 1;
        }
        i += 1;
    }
    n
}

// ─── numbers ─────────────────────────────────────────────────────────────────
/// The number that `s` writes in decimal, with or without a sign before
/// its digits, if it fits 64 bits with a sign.
pub open spec fn spec_parse_i64(s: Seq<u8>) -> Option<i64> {
    let signed = s.len() > 0 && (s[0] == 0x2d || s[0] == 0x2b);
    let digits = if signed {
        s.skip(1)
    } else {
        s
    };
    let value = if s.len() > 0 && s[0] == 0x2d {
        -(decimal_value(digits) as int)
    } else {
        decimal_value(digits) as int
    };
    if digits.len() == 0 || !all_digits(digits) || value < i64::MIN || value > i64::MAX {
        None
    } else {
        Some(value as i64)
    }
}

/// A number grows with every digit written behind it.
pub proof fn lemma_decimal_grows(s: Seq<u8>, n: int)
    requires
        0 <= n <= s.len(),
        all_digits(s),
    ensures
        decimal_value(s.take(n)) <= decimal_value(s),
    decreases s.len() - n,
{
    if n == s.len() {
        assert(s.take(n) =~= s);
    } else {
        assert(s.take(n + 1).drop_last() =~= s.take(n));
        assert(is_digit(s[n]));
        assert(s.take(n + 1).last() == s[n]);
        lemma_decimal_grows(s, n + 1);
    }
}

/// Reads the number that `s` writes in decimal.
#[verifier::loop_isolation(false)]
pub fn parse_i64(s: &[u8]) -> (r: Option<i64>)
    ensures
        r == spec_parse_i64(s@),
{
    let total = s.len();
    if total == 0 {
        return None;
    }
    let negative = s[0] == 0x2d;
    let start: usize = if s[0] == 0x2d || s[0] == 0x2b {
        1
    } else {
        0
    };
    let ghost digits = s@.skip(start as int);
    assert(s@.skip(0) =~= s@);
    if start == total {
        return None;
    }
    let limit: u64 = 0x8000_0000_0000_0000;
    let mut acc: u64 = 0;
    let mut i: usize = start;
    assert(digits.take(0) =~= Seq::<u8>::empty());
    while i < total
        invariant
            start <= i <= total,
            total == s@.len(),
            digits == s@.skip(start as int),
            limit == 0x8000_0000_0000_0000,
            acc <= limit,
            forall|k: int| 0 <= k < i - start ==> is_digit(#[trigger] digits[k]),
            acc == decimal_value(digits.take(i - start)),
        decreases total - i,
    {
        let b = s[i];
        assert(digits[i - start] == b);
        if b < 0x30 || b > 0x39 {
            assert(!is_digit(digits[i - start]));
            return None;
        }
        let d = (b - 0x30) as u64;
        proof {
            let cur = digits.take(i - start + 1);
            assert(cur.drop_last() =~= digits.take(i - start));
            assert(cur.last() == b);
        }
        if acc > (limit - d) / 10 {
            proof {
                assert(acc * 10 + d > limit);
                assert(decimal_value(digits.take(i - start + 1)) == acc * 10 + d);
                if all_digits(digits) {
                    lemma_decimal_grows(digits, i - start + 1);
                    assert(decimal_value(digits) > limit);
                }
            }
            return None;
        }
        acc = acc * 10 + d;
        i += 1;
    }
    assert(digits.take(total - start) =~= digits);
    if negative {
        if acc == limit {
            Some(i64::MIN)
        } else {
            Some(-(acc as i64))
        }
    } else if acc == limit {
        None
    } else {
        Some(acc as i64)
    }
}

// ─── Markdown ────────────────────────────────────────────────────────────────
/// A pair of marks of Markdown that encloses formatted text.
#[derive(Clone, Copy, Debug, PartialEq, Eq, Structural)]
pub enum MarkdownTag {
    /// `**`
    Bold,
    /// `__`
    Italic,
    /// `~~`
    Strike,
    /// `||`
    Spoiler,
}

/// What has been read of a Markdown text: the plain text so far, the
/// formatting that is complete, and the marks that are still open, each with
/// the place where it was opened.
pub struct MdState {
    pub out: Seq<u8>,
    pub ents: Seq<EntityView>,
    pub stack: Seq<(MarkdownTag, i32)>,
}

/// The place and the extent of the piece `piece` that comes behind the
/// plain text `before`.
pub open spec fn span_of(before: Seq<u8>, piece: Seq<u8>) -> Span {
    Span { offset: utf16_len(before) as i32, length: utf16_len(piece) as i32 }
}

/// Three backticks stand at the place `i`.
pub open spec fn is_fence(s: Seq<u8>, i: int) -> bool {
    0 <= i && i + 2 < s.len() && s[i] == 0x60 && s[i + 1] == 0x60 && s[i + 2] == 0x60
}

/// The first place at or after `from` where three backticks stand.
pub open spec fn find_fence(s: Seq<u8>, from: int) -> Option<int>
    decreases s.len() - from,
{
    if from < 0 || from + 2 >= s.len() {
        None
    } else if is_fence(s, from) {
        Some(from)
    } else {
        find_fence(s, from + 1)
    }
}

/// The language of a block of code: its first line without the whitespace
/// around it, where the block has more than one line.
pub open spec fn block_language(block: Seq<u8>) -> Seq<u8> {
    match index_of_from(block, 0x0a, 0) {
        Some(nl) => trim(block.take(nl)),
        None => Seq::empty(),
    }
}

/// The place where the code of a block starts: behind its first line,
/// where it has more than one.
pub open spec fn block_code_start(block: Seq<u8>) -> int {
    match index_of_from(block, 0x0a, 0) {
        Some(nl) => nl + 1,
        None => 0,
    }
}

/// The place of the `]` that closes the bracket which is open `depth`
/// times at the place `j`.
pub open spec fn find_bracket(s: Seq<u8>, j: int, depth: int) -> Option<int>
    decreases s.len() - j,
{
    if j < 0 || j >= s.len() {
        None
    } else {
        let d = if s[j] == 0x5b {
            depth + 1
        } else if s[j] == 0x5d {
            depth - 1
        } else {
            depth
        };
        if s[j] == 0x5d && d == 0 {
            Some(j)
        } else {
            find_bracket(s, j + 1, d)
        }
    }
}

/// The link that starts at the `[` at the place `i`: the places of its `]`,
/// which `(` follows, and of the `)` behind.
pub open spec fn find_link(s: Seq<u8>, i: int) -> Option<(int, int)> {
    match find_bracket(s, i + 1, 1) {
        Some(j) => if j + 1 < s.len() && s[j + 1] == 0x28 {
            match index_of_from(s, 0x29, j + 2) {
                Some(k) => Some((j, k)),
                None => None,
            }
        } else {
            None
        },
        None => None,
    }
}

/// What the address of a mention starts with.
pub open spec fn mention_prefix() -> Seq<u8> {
    "tg://user?id=".spec_bytes()
}

/// The formatting for a link to `url` over `span`: a mention where the
/// address names a user by number, nothing where it starts like one and
/// names none, else a link.
pub open spec fn link_entity(span: Span, url: Seq<u8>) -> Option<EntityView> {
    if spec_starts_with(url, mention_prefix()) {
        match spec_parse_i64(url.skip(mention_prefix().len() as int)) {
            Some(uid) => Some(EntityView::MentionName { span, user_id: uid }),
            None => None,
        }
    } else {
        Some(EntityView::TextUrl { span, url: spec_lenient_text(url) })
    }
}

/// The mark that the two bytes at the place `i` write.
pub open spec fn tag_at(s: Seq<u8>, i: int) -> Option<MarkdownTag> {
    if 0 <= i && i + 1 < s.len() && s[i] == s[i + 1] {
        if s[i] == 0x2a {
            Some(MarkdownTag::Bold)
        } else if s[i] == 0x5f {
            Some(MarkdownTag::Italic)
        } else if s[i] == 0x7e {
            Some(MarkdownTag::Strike)
        } else if s[i] == 0x7c {
            Some(MarkdownTag::Spoiler)
        } else {
            None
        }
    } else {
        None
    }
}

/// The place of the mark `tag` that was opened last.
pub open spec fn last_open(stack: Seq<(MarkdownTag, i32)>, tag: MarkdownTag) -> Option<int>
    decreases stack.len(),
{
    if stack.len() == 0 {
        None
    } else if stack.last().0 == tag {
        Some(stack.len() - 1)
    } else {
        last_open(stack.drop_last(), tag)
    }
}

/// The formatting that the mark `tag` stands for.
pub open spec fn tag_entity(tag: MarkdownTag, span: Span) -> EntityView {
    match tag {
        MarkdownTag::Bold => EntityView::Bold(span),
        MarkdownTag::Italic => EntityView::Italic(span),
        MarkdownTag::Strike => EntityView::Strike(span),
        MarkdownTag::Spoiler => EntityView::Spoiler(span),
    }
}

/// The state after the mark `tag` was read: where one is open, the last
/// such is closed, and the text since then is formatted if there is any;
/// else the mark is opened.
pub open spec fn after_tag(st: MdState, tag: MarkdownTag) -> MdState {
    let off = utf16_len(st.out) as i32;
    match last_open(st.stack, tag) {
        Some(pos) => {
            let begin = st.stack[pos].1;
            let span = Span { offset: begin, length: (off - begin) as i32 };
            MdState {
                out: st.out,
                ents: if off - begin > 0 {
                    st.ents.push(tag_entity(tag, span))
                } else {
                    st.ents
                },
                stack: st.stack.remove(pos),
            }
        },
        None => MdState { out: st.out, ents: st.ents, stack: st.stack.push((tag, off)) },
    }
}

/// One step through a Markdown text from the place `i`: the place to go
/// on at, and the state there. A block of code between fences comes first,
/// then code between backticks, a link, a mark; any other byte is plain
/// text.
pub open spec fn md_step(s: Seq<u8>, i: int, st: MdState) -> (int, MdState) {
    if is_fence(s, i) && find_fence(s, i + 3) is Some {
        let j = find_fence(s, i + 3)->Some_0;
        let block = s.subrange(i + 3, j);
        let code = block.skip(block_code_start(block));
        (
            j + 3,
            MdState {
                out: st.out + code,
                ents: st.ents.push(
                    EntityView::Pre {
                        span: span_of(st.out, code),
                        language: spec_lenient_text(block_language(block)),
                    },
                ),
                stack: st.stack,
            },
        )
    } else if s[i] == 0x60 && index_of_from(s, 0x60, i + 1) is Some {
        let j = index_of_from(s, 0x60, i + 1)->Some_0;
        let code = s.subrange(i + 1, j);
        (
            j + 1,
            MdState {
                out: st.out + code,
                ents: st.ents.push(EntityView::Code(span_of(st.out, code))),
                stack: st.stack,
            },
        )
    } else if s[i] == 0x5b && find_link(s, i) is Some {
        let (j, k) = find_link(s, i)->Some_0;
        let inner = s.subrange(i + 1, j);
        let url = s.subrange(j + 2, k);
        (
            k + 1,
            MdState {
                out: st.out + inner,
                ents: match link_entity(span_of(st.out, inner), url) {
                    Some(e) => st.ents.push(e),
                    None => st.ents,
                },
                stack: st.stack,
            },
        )
    } else if tag_at(s, i) is Some {
        (i + 2, after_tag(st, tag_at(s, i)->Some_0))
    } else {
        (i + 1, MdState { out: st.out.push(s[i]), ents: st.ents, stack: st.stack })
    }
}

/// The state at the end of a Markdown text that is read from the place `i`
/// on in the state `st`.
pub open spec fn md_run(s: Seq<u8>, i: int, st: MdState) -> MdState
    decreases s.len() - i,
{
    if i < 0 || i >= s.len() {
        st
    } else {
        let next = md_step(s, i, st);
        if i < next.0 <= s.len() {
            md_run(s, next.0, next.1)
        } else {
            next.1
        }
    }
}

/// The plain text of a Markdown text and its formatting, in the order in
/// which the formatting ends. Marks that are never closed format nothing.
pub open spec fn spec_parse_markdown(s: Seq<u8>) -> (Seq<u8>, Seq<EntityView>) {
    let end = md_run(
        s,
        0,
        MdState { out: Seq::empty(), ents: Seq::empty(), stack: Seq::empty() },
    );
    (end.out, end.ents)
}

/// Finds the first place at or after `from` where three backticks stand.
pub fn find_fence_from(s: &[u8], from: usize) -> (r: Option<usize>)
    ensures
        match find_fence(s@, from as int) {
            Some(j) => r is Some && r->Some_0 as int == j && from <= j && j + 2 < s@.len(),
            None => r is None,
        },
{
    let total = s.len();
    let mut j: usize = from;
    while j < total && total - j > 2
        invariant
            from <= j,
            total == s@.len(),
            find_fence(s@, from as int) == find_fence(s@, j as int),
        decreases total - j,
    {
        if s[j] == 0x60 && s[j + 1] == 0x60 && s[j + 2] == 0x60 {
            return Some(j);
        }
        j += 1;
    }
    None
}

/// Finds the `]` that closes the bracket opened just before `from`.
pub fn find_bracket_from(s: &[u8], from: usize) -> (r: Option<usize>)
    requires
        s@.len() <= MAX_TEXT,
    ensures
        match find_bracket(s@, from as int, 1) {
            Some(j) => r is Some && r->Some_0 as int == j && from <= j < s@.len(),
            None => r is None,
        },
{
    let total = s.len();
    let mut j: usize = from;
    let mut depth: usize = 1;
    while j < total
        invariant
            from <= j,
            total == s@.len(),
            total <= MAX_TEXT,
            1 <= depth <= 1 + (j - from),
            find_bracket(s@, from as int, 1) == find_bracket(s@, j as int, depth as int),
        decreases total - j,
    {
        if s[j] == 0x5b {
            depth += 1;
        } else if s[j] == 0x5d {
            depth -= 1;
            if depth == 0 {
                return Some(j);
            }
        }
        j += 1;
    }
    None
}

/// Finds the link that starts at the `[` at the place `i`.
pub fn find_link_from(s: &[u8], i: usize) -> (r: Option<(usize, usize)>)
    requires
        i < s@.len() <= MAX_TEXT,
    ensures
        match find_link(s@, i as int) {
            Some((j, k)) => r is Some && r->Some_0.0 as int == j && r->Some_0.1 as int == k && i < j
                && j + 2 <= k < s@.len(),
            None => r is None,
        },
{
    match find_bracket_from(s, i + 1) {
        Some(j) => {
            if j + 1 < s.len() && s[j + 1] == 0x28 {
                match find_from(s, 0x29, j + 2) {
                    Some(k) => Some((j, k)),
                    None => None,
                }
            } else {
                None
            }
        },
        None => None,
    }
}

/// Reads the mark that the two bytes at the place `i` write.
pub fn read_tag(s: &[u8], i: usize) -> (r: Option<MarkdownTag>)
    requires
        i < s@.len() <= MAX_TEXT,
    ensures
        r == tag_at(s@, i as int),
{
    if i + 1 < s.len() && s[i] == s[i + 1] {
        let b = s[i];
        if b == 0x2a {
            Some(MarkdownTag::Bold)
        } else if b == 0x5f {
            Some(MarkdownTag::Italic)
        } else if b == 0x7e {
            Some(MarkdownTag::Strike)
        } else if b == 0x7c {
            Some(MarkdownTag::Spoiler)
        } else {
            None
        }
    } else {
        None
    }
}

/// Finds the mark `tag` that was opened last.
pub fn find_open(stack: &Vec<(MarkdownTag, i32)>, tag: MarkdownTag) -> (r: Option<usize>)
    ensures
        match last_open(stack@, tag) {
            Some(pos) => r is Some && r->Some_0 as int == pos && 0 <= pos < stack@.len(),
            None => r is None,
        },
{
    let mut i: usize = stack.len();
    assert(stack@.take(i as int) =~= stack@);
    while i > 0
        invariant
            i <= stack@.len(),
            last_open(stack@, tag) == last_open(stack@.take(i as int), tag),
        decreases i,
    {
        i -= 1;
        assert(stack@.take(i as int + 1).last() == stack@[i as int]);
        if stack[i].0 == tag {
            return Some(i);
        }
        assert(stack@.take(i as int + 1).drop_last() =~= stack@.take(i as int));
    }
    None
}

/// The formatting for the mark `tag` over `span`.
pub fn entity_for_tag(tag: MarkdownTag, span: Span) -> (e: MessageEntity)
    ensures
        entity_view(e) == tag_entity(tag, span),
{
    match tag {
        MarkdownTag::Bold => MessageEntity::Bold(span),
        MarkdownTag::Italic => MessageEntity::Italic(span),
        MarkdownTag::Strike => MessageEntity::Strike(span),
        MarkdownTag::Spoiler => MessageEntity::Spoiler(span),
    }
}

/// The formatting for a link to `url` over `span`.
pub fn entity_for_link(span: Span, url: &[u8]) -> (e: Option<MessageEntity>)
    ensures
        match link_entity(span, url@) {
            Some(v) => e is Some && entity_view(e->Some_0) == v,
            None => e is None,
        },
{
    let prefix = "tg://user?id=".as_bytes();
    if starts_with(url, prefix) {
        let rest = copy_range(url, prefix.len(), url.len());
        assert(rest@ =~= url@.skip(mention_prefix().len() as int));
        match parse_i64(rest.as_slice()) {
            Some(uid) => Some(MessageEntity::MentionName { span, user_id: uid }),
            None => None,
        }
    } else {
        Some(MessageEntity::TextUrl { span, url: lenient_text(url) })
    }
}

/// A list of formatting with one more piece is, as contracts see it, the
/// list with that piece as they see it.
pub proof fn lemma_entities_push(v: Seq<MessageEntity>, e: MessageEntity)
    ensures
        entities_view(v.push(e)) == entities_view(v).push(entity_view(e)),
{
    assert(entities_view(v.push(e)) =~= entities_view(v).push(entity_view(e)));
}

/// What a parser holds while it reads: the plain text and the formatting
/// so far, and the length of the plain text in UTF-16 code units.
pub struct Reading {
    pub out: Vec<u8>,
    pub ents: Vec<MessageEntity>,
    pub off: i32,
}

impl Reading {
    /// The length that is held is that of the text, and every place in a
    /// text that is `room` bytes longer still fits.
    pub open spec fn wf(self, room: int) -> bool {
        &&& self.off == utf16_len(self.out@)
        &&& self.out@.len() + room <= MAX_TEXT
    }

    /// Nothing read yet.
    pub fn new() -> (r: Self)
        ensures
            r.out@ == Seq::<u8>::empty(),
            entities_view(r.ents@) == Seq::<EntityView>::empty(),
            r.off == 0,
    {
        let r = Reading { out: Vec::new(), ents: Vec::new(), off: 0 };
        assert(entities_view(r.ents@) =~= Seq::<EntityView>::empty());
        r
    }

    /// Takes the bytes of `s` from `from` to `to` as plain text, and says how
    /// many UTF-16 code units they are.
    pub fn take_text(&mut self, s: &[u8], from: usize, to: usize) -> (length: i32)
        requires
            from <= to <= s@.len() <= MAX_TEXT,
            old(self).wf(to - from),
        ensures
            final(self).out@ == old(self).out@ + s@.subrange(from as int, to as int),
            final(self).ents == old(self).ents,
            final(self).wf(0),
            length == utf16_len(s@.subrange(from as int, to as int)),
            final(self).off == old(self).off + length,
            0 <= old(self).off,
            0 <= length,
    {
        let length = utf16_count(s, from, to);
        let piece = copy_range(s, from, to);
        proof {
            lemma_utf16_len(self.out@, piece@);
            lemma_utf16_len(piece@, Seq::<u8>::empty());
            lemma_utf16_len(self.out@ + piece@, Seq::<u8>::empty());
        }
        push_all(&mut self.out, piece.as_slice());
        self.off = self.off + length;
        length
    }

    /// Notes a piece of formatting.
    pub fn note(&mut self, e: MessageEntity)
        ensures
            final(self).out == old(self).out,
            final(self).off == old(self).off,
            entities_view(final(self).ents@) == entities_view(old(self).ents@).push(entity_view(e)),
    {
        proof {
            lemma_entities_push(self.ents@, e);
        }
        self.ents.push(e);
    }
}

/// The state that the parser of Markdown is in.
pub open spec fn md_state(r: Reading, stack: Seq<(MarkdownTag, i32)>) -> MdState {
    MdState { out: r.out@, ents: entities_view(r.ents@), stack }
}

/// Reads a block of code between the fence at the place `i` and the one at
/// the place `j`.
fn md_block(r: &mut Reading, s: &[u8], i: usize, j: usize)
    requires
        i + 3 <= j,
        j + 3 <= s@.len() <= MAX_TEXT,
        old(r).wf(j - i),
    ensures
        final(r).wf(0),
        final(r).out@.len() <= old(r).out@.len() + (j - i),
        ({
            let block = s@.subrange(i + 3, j as int);
            let code = block.skip(block_code_start(block));
            &&& final(r).out@ == old(r).out@ + code
            &&& entities_view(final(r).ents@) == entities_view(old(r).ents@).push(
                EntityView::Pre {
                    span: span_of(old(r).out@, code),
                    language: spec_lenient_text(block_language(block)),
                },
            )
        }),
{
    let block = copy_range(s, i + 3, j);
    let (language, start) = match find_from(block.as_slice(), 0x0a, 0) {
        Some(nl) => {
            let first = copy_range(block.as_slice(), 0, nl);
            assert(first@ =~= block@.take(nl as int));
            (trimmed(first.as_slice()), nl + 1)
        },
        None => (Vec::new(), 0),
    };
    let offset = r.off;
    let length = r.take_text(block.as_slice(), start, block.len());
    assert(block@.subrange(start as int, block@.len() as int) =~= block@.skip(start as int));
    let language = lenient_text(language.as_slice());
    r.note(MessageEntity::Pre { span: Span { offset, length }, language });
}

/// Reads the mark `tag`.
fn md_tag(r: &mut Reading, stack: &mut Vec<(MarkdownTag, i32)>, tag: MarkdownTag)
    requires
        old(r).wf(0),
        forall|k: int| 0 <= k < old(stack)@.len() ==> (#[trigger] old(stack)@[k]).1 >= 0,
    ensures
        final(r).wf(0),
        final(r).out == old(r).out,
        forall|k: int| 0 <= k < final(stack)@.len() ==> (#[trigger] final(stack)@[k]).1 >= 0,
        md_state(*final(r), final(stack)@) == after_tag(md_state(*old(r), old(stack)@), tag),
{
    proof {
        lemma_utf16_len(r.out@, Seq::<u8>::empty());
    }
    match find_open(stack, tag) {
        Some(pos) => {
            let opened = stack.remove(pos);
            let length = r.off - opened.1;
            if length > 0 {
                r.note(entity_for_tag(tag, Span { offset: opened.1, length }));
            }
        },
        None => {
            stack.push((tag, r.off));
        },
    }
}

/// Takes a Markdown text apart into its plain text and its formatting.
/// `**`, `__`, `~~` and `||` enclose bold, italic, struck and hidden text;
/// backticks enclose code, three of them a block with its language on the
/// first line; `[text](address)` is a link, or a mention where the address is
/// `tg://user?id=` and a number.
pub fn parse_markdown(text: &str) -> (r: (String, Vec<MessageEntity>))
    requires
        text.spec_bytes().len() <= MAX_TEXT,
    ensures
        r.0@ == spec_lenient_text(spec_parse_markdown(text.spec_bytes()).0),
        entities_view(r.1@) == spec_parse_markdown(text.spec_bytes()).1,
{
    let s = text.as_bytes();
    let total = s.len();
    let mut r = Reading::new();
    let mut stack: Vec<(MarkdownTag, i32)> = Vec::new();
    let mut i: usize = 0;
    let ghost first = md_state(r, stack@);
    assert(first == (MdState { out: Seq::empty(), ents: Seq::empty(), stack: Seq::empty() }));
    proof {
        lemma_utf16_len(r.out@, Seq::<u8>::empty());
    }
    while i < total
        invariant
            i <= total,
            total == s@.len(),
            total <= MAX_TEXT,
            r.out@.len() <= i,
            r.wf(0),
            forall|k: int| 0 <= k < stack@.len() ==> (#[trigger] stack@[k]).1 >= 0,
            md_run(s@, 0, first) == md_run(s@, i as int, md_state(r, stack@)),
        decreases total - i,
    {
        let ghost st = md_state(r, stack@);
        let fence = if total - i > 2 && s[i] == 0x60 && s[i + 1] == 0x60 && s[i + 2] == 0x60 {
            find_fence_from(s, i + 3)
        } else {
            None
        };
        let tick = if fence.is_none() && s[i] == 0x60 {
            find_from(s, 0x60, i + 1)
        } else {
            None
        };
        let link = if fence.is_none() && tick.is_none() && s[i] == 0x5b {
            find_link_from(s, i)
        } else {
            None
        };
        if let Some(j) = fence {
            md_block(&mut r, s, i, j);
            assert(md_step(s@, i as int, st) == (j as int + 3, md_state(r, stack@)));
            i = j + 3;
        } else if let Some(j) = tick {
            let offset = r.off;
            let length = r.take_text(s, i + 1, j);
            r.note(MessageEntity::Code(Span { offset, length }));
            assert(md_step(s@, i as int, st) == (j as int + 1, md_state(r, stack@)));
            i = j + 1;
        } else if let Some((j, k)) = link {
            let offset = r.off;
            let length = r.take_text(s, i + 1, j);
            let url = copy_range(s, j + 2, k);
            match entity_for_link(Span { offset, length }, url.as_slice()) {
                Some(e) => {
                    r.note(e);
                },
                None => {},
            }
            assert(md_step(s@, i as int, st) == (k as int + 1, md_state(r, stack@)));
            i = k + 1;
        } else {
            match read_tag(s, i) {
                Some(tag) => {
                    md_tag(&mut r, &mut stack, tag);
                    assert(md_step(s@, i as int, st) == (i as int + 2, md_state(r, stack@)));
                    i = i + 2;
                },
                None => {
                    let length = r.take_text(s, i, i + 1);
                    assert(s@.subrange(i as int, i as int + 1) =~= seq![s@[i as int]]);
                    assert(r.out@ =~= st.out.push(s@[i as int]));
                    assert(md_step(s@, i as int, st) == (i as int + 1, md_state(r, stack@)));
                    i = i + 1;
                },
            }
        }
    }
    (lenient_text(r.out.as_slice()), r.ents)
}

// ─── marks put into a text ───────────────────────────────────────────────────
/// A mark to put into a text: the place before which it goes, in UTF-16
/// code units; its rank among the marks of one place; and what it writes.
#[derive(Debug, PartialEq, Eq)]
pub struct Marker {
    pub pos: i64,
    pub rank: u8,
    pub text: Vec<u8>,
}

/// A mark as contracts see it.
pub struct MarkerView {
    pub pos: int,
    pub rank: int,
    pub text: Seq<u8>,
}

impl View for Marker {
    type V = MarkerView;

    open spec fn view(&self) -> MarkerView {
        MarkerView { pos: self.pos as int, rank: self.rank as int, text: self.text@ }
    }
}

/// The marks as contracts see them.
pub open spec fn markers_view(v: Seq<Marker>) -> Seq<MarkerView> {
    Seq::new(v.len(), |i: int| v[i]@)
}

/// The mark `a` goes behind the mark `b`: at a later place, or at the same
/// place with a higher rank.
pub open spec fn comes_after(a: MarkerView, b: MarkerView) -> bool {
    a.pos > b.pos || (a.pos == b.pos && a.rank > b.rank)
}

/// Where the mark `m` goes among the first `n` marks of the ordered `list`:
/// behind every mark that does not come after it.
pub open spec fn slot(list: Seq<MarkerView>, m: MarkerView, n: int) -> int
    decreases n,
{
    if n <= 0 {
        0
    } else if comes_after(list[n - 1], m) {
        slot(list, m, n - 1)
    } else {
        n
    }
}

/// The ordered `list` with the mark `m` in its place.
pub open spec fn put(list: Seq<MarkerView>, m: MarkerView) -> Seq<MarkerView> {
    list.insert(slot(list, m, list.len() as int), m)
}

/// Puts the mark `m` in its place in the ordered `list`.
pub fn put_marker(list: &mut Vec<Marker>, m: Marker)
    ensures
        markers_view(final(list)@) == put(markers_view(old(list)@), m@),
{
    let ghost before = markers_view(list@);
    let mut k: usize = list.len();
    while k > 0 && (list[k - 1].pos > m.pos || (list[k - 1].pos == m.pos && list[k - 1].rank
        > m.rank))
        invariant
            k <= list@.len(),
            list@ == old(list)@,
            before == markers_view(list@),
            slot(before, m@, before.len() as int) == slot(before, m@, k as int),
        decreases k,
    {
        assert(before[k - 1] == list@[k - 1]@);
        k -= 1;
    }
    proof {
        if k > 0 {
            assert(before[k - 1] == list@[k - 1]@);
        }
    }
    list.insert(k, m);
    assert(markers_view(list@) =~= put(before, m@));
}

/// The first mark from the place `from` on that goes behind the place
/// `pos` of the text.
pub open spec fn flush_end(ms: Seq<MarkerView>, from: int, pos: int) -> int
    decreases ms.len() - from,
{
    if from < 0 || from >= ms.len() || ms[from].pos > pos {
        from
    } else {
        flush_end(ms, from + 1, pos)
    }
}

/// What the marks from `from` to `to` write, one after the other.
pub open spec fn joined(ms: Seq<MarkerView>, from: int, to: int) -> Seq<u8>
    decreases to - from,
{
    if to <= from {
        Seq::empty()
    } else {
        joined(ms, from, to - 1) + ms[to - 1].text
    }
}

/// A byte as HTML writes it: `&`, `<`, `>` and `"` by their names.
pub open spec fn escaped(b: u8) -> Seq<u8> {
    if b == 0x26 {
        "&amp;".spec_bytes()
    } else if b == 0x3c {
        "&lt;".spec_bytes()
    } else if b == 0x3e {
        "&gt;".spec_bytes()
    } else if b == 0x22 {
        "&quot;".spec_bytes()
    } else {
        seq![b]
    }
}

/// A byte of the text as it is written out.
pub open spec fn written(b: u8, escape: bool) -> Seq<u8> {
    if escape {
        escaped(b)
    } else {
        seq![b]
    }
}

/// The text `s` from the byte `i` on with the marks `ms` from the mark `m`
/// on put in, where `pos` UTF-16 code units of the text lie before `i`:
/// before each character stand the marks whose place is reached, and behind
/// the text those that are left.
pub open spec fn weave(s: Seq<u8>, i: int, ms: Seq<MarkerView>, m: int, pos: int, escape: bool) -> Seq<
    u8,
>
    decreases s.len() - i,
{
    if i < 0 || i >= s.len() {
        joined(ms, m, ms.len() as int)
    } else if 0x80 <= s[i] < 0xc0 {
        written(s[i], escape) + weave(s, i + 1, ms, m, pos, escape)
    } else {
        let e = flush_end(ms, m, pos);
        joined(ms, m, e) + written(s[i], escape) + weave(
            s,
            i + 1,
            ms,
            e,
            pos + units(s[i]),
            escape,
        )
    }
}

/// Appends what the marks from `m` on write whose place is not behind `pos`,
/// and says which mark is the next.
pub fn flush(out: &mut Vec<u8>, ms: &Vec<Marker>, m: usize, pos: i64) -> (e: usize)
    requires
        m <= ms@.len(),
    ensures
        e == flush_end(markers_view(ms@), m as int, pos as int),
        m <= e <= ms@.len(),
        final(out)@ == old(out)@ + joined(markers_view(ms@), m as int, e as int),
{
    let ghost all = markers_view(ms@);
    let mut e: usize = m;
    assert(old(out)@ + Seq::<u8>::empty() =~= old(out)@);
    while e < ms.len() && ms[e].pos <= pos
        invariant
            m <= e <= ms@.len(),
            all == markers_view(ms@),
            flush_end(all, m as int, pos as int) == flush_end(all, e as int, pos as int),
            out@ == old(out)@ + joined(all, m as int, e as int),
        decreases ms@.len() - e,
    {
        assert(all[e as int] == ms@[e as int]@);
        push_all(out, ms[e].text.as_slice());
        assert(out@ =~= old(out)@ + (joined(all, m as int, e as int) + all[e as int].text));
        e += 1;
    }
    proof {
        if e < ms@.len() {
            assert(all[e as int] == ms@[e as int]@);
        }
    }
    e
}

/// Appends a byte of the text as it is written out.
pub fn push_written(out: &mut Vec<u8>, b: u8, escape: bool)
    ensures
        final(out)@ == old(out)@ + written(b, escape),
{
    if escape && b == 0x26 {
        push_all(out, "&amp;".as_bytes());
    } else if escape && b == 0x3c {
        push_all(out, "&lt;".as_bytes());
    } else if escape && b == 0x3e {
        push_all(out, "&gt;".as_bytes());
    } else if escape && b == 0x22 {
        push_all(out, "&quot;".as_bytes());
    } else {
        out.push(b);
        assert(out@ =~= old(out)@ + seq![b]);
    }
}

/// Puts the ordered marks `ms` into the text `s`.
pub fn weave_text(s: &[u8], ms: &Vec<Marker>, escape: bool) -> (out: Vec<u8>)
    requires
        s@.len() <= MAX_TEXT,
    ensures
        out@ == weave(s@, 0, markers_view(ms@), 0, 0, escape),
{
    let ghost all = markers_view(ms@);
    let total = s.len();
    let mut out: Vec<u8> = Vec::new();
    let mut i: usize = 0;
    let mut m: usize = 0;
    let mut pos: i64 = 0;
    assert(out@ + weave(s@, 0, all, 0, 0, escape) =~= weave(s@, 0, all, 0, 0, escape));
    while i < total
        invariant
            i <= total,
            total == s@.len(),
            total <= MAX_TEXT,
            m <= ms@.len(),
            0 <= pos <= 2 * i,
            all == markers_view(ms@),
            out@ + weave(s@, i as int, all, m as int, pos as int, escape) == weave(
                s@,
                0,
                all,
                0,
                0,
                escape,
            ),
        decreases total - i,
    {
        let b = s[i];
        let ghost before = out@;
        let ghost rest = weave(s@, i as int, all, m as int, pos as int, escape);
        if 0x80 <= b && b < 0xc0 {
            push_written(&mut out, b, escape);
            assert(before + rest =~= out@ + weave(
                s@,
                i as int + 1,
                all,
                m as int,
                pos as int,
                escape,
            ));
        } else {
            let e = flush(&mut out, ms, m, pos);
            push_written(&mut out, b, escape);
            let step: i64 = if b >= 0xf0 {
                2
            } else {
                1
            };
            assert(before + rest =~= out@ + weave(
                s@,
                i as int + 1,
                all,
                e as int,
                pos + step,
                escape,
            ));
            m = e;
            pos = pos + step;
        }
        i += 1;
    }
    let ghost before = out@;
    let mut k: usize = m;
    assert(out@ + Seq::<u8>::empty() =~= out@);
    while k < ms.len()
        invariant
            m <= k <= ms@.len(),
            all == markers_view(ms@),
            out@ == before + joined(all, m as int, k as int),
        decreases ms@.len() - k,
    {
        assert(all[k as int] == ms@[k as int]@);
        push_all(&mut out, ms[k].text.as_slice());
        assert(out@ =~= before + (joined(all, m as int, k as int) + all[k as int].text));
        k += 1;
    }
    out
}

/// The place and the extent of a piece of formatting.
pub open spec fn span_of_entity(e: EntityView) -> Span {
    match e {
        EntityView::Unknown(s) => s,
        EntityView::Mention(s) => s,
        EntityView::Hashtag(s) => s,
        EntityView::BotCommand(s) => s,
        EntityView::Url(s) => s,
        EntityView::Email(s) => s,
        EntityView::Bold(s) => s,
        EntityView::Italic(s) => s,
        EntityView::Code(s) => s,
        EntityView::Pre { span, .. } => span,
        EntityView::TextUrl { span, .. } => span,
        EntityView::MentionName { span, .. } => span,
        EntityView::Underline(s) => s,
        EntityView::Strike(s) => s,
        EntityView::Blockquote(s) => s,
        EntityView::Spoiler(s) => s,
        EntityView::CustomEmoji { span, .. } => span,
    }
}

/// The ordered marks `list` with the two marks of a piece of formatting
/// over `span`: `open` before its first code unit, `close` behind its last.
pub open spec fn with_pair(
    list: Seq<MarkerView>,
    span: Span,
    open: Seq<u8>,
    close: Seq<u8>,
    close_rank: int,
) -> Seq<MarkerView> {
    put(
        put(list, MarkerView { pos: span.offset as int, rank: 0, text: open }),
        MarkerView { pos: span.offset + span.length, rank: close_rank, text: close },
    )
}

/// Puts the two marks of a piece of formatting over `span` in their places.
pub fn put_pair(list: &mut Vec<Marker>, span: Span, open: Vec<u8>, close: Vec<u8>, close_rank: u8)
    ensures
        markers_view(final(list)@) == with_pair(
            markers_view(old(list)@),
            span,
            open@,
            close@,
            close_rank as int,
        ),
{
    put_marker(list, Marker { pos: span.offset as i64, rank: 0, text: open });
    put_marker(
        list,
        Marker { pos: span.offset as i64 + span.length as i64, rank: close_rank, text: close },
    );
}

// ─── Markdown written out ────────────────────────────────────────────────────
/// The mark of Markdown for a piece of formatting; none for formatting that
/// Markdown is not written for.
pub open spec fn md_mark(e: EntityView) -> Option<Seq<u8>> {
    match e {
        EntityView::Bold(_) => Some("**".spec_bytes()),
        EntityView::Italic(_) => Some("__".spec_bytes()),
        EntityView::Strike(_) => Some("~~".spec_bytes()),
        EntityView::Spoiler(_) => Some("||".spec_bytes()),
        EntityView::Code(_) => Some("`".spec_bytes()),
        _ => None,
    }
}

/// The marks of Markdown for the first `n` pieces of formatting, ordered by
/// place; marks of one place stand in the order in which they were made.
pub open spec fn md_markers(es: Seq<EntityView>, n: int) -> Seq<MarkerView>
    decreases n,
{
    if n <= 0 {
        Seq::empty()
    } else {
        let before = md_markers(es, n - 1);
        match md_mark(es[n - 1]) {
            Some(t) => with_pair(before, span_of_entity(es[n - 1]), t, t, 0),
            None => before,
        }
    }
}

/// The text `s` with the marks of Markdown for the formatting `es`.
pub open spec fn spec_generate_markdown(s: Seq<u8>, es: Seq<EntityView>) -> Seq<u8> {
    weave(s, 0, md_markers(es, es.len() as int), 0, 0, false)
}

/// The mark of Markdown for a piece of formatting, and its place.
pub fn mark_of(e: &MessageEntity) -> (r: Option<(Span, &'static str)>)
    ensures
        match md_mark(entity_view(*e)) {
            Some(t) => r is Some && r->Some_0.0 == span_of_entity(entity_view(*e))
                && r->Some_0.1.spec_bytes() == t,
            None => r is None,
        },
{
    match e {
        MessageEntity::Bold(s) => Some((*s, "**")),
        MessageEntity::Italic(s) => Some((*s, "__")),
        MessageEntity::Strike(s) => Some((*s, "~~")),
        MessageEntity::Spoiler(s) => Some((*s, "||")),
        MessageEntity::Code(s) => Some((*s, "`")),
        _ => None,
    }
}

/// Writes a text with its formatting as Markdown. Bold, italic, struck and
/// hidden text and code get their marks; other formatting is left out.
pub fn generate_markdown(text: &str, entities: &[MessageEntity]) -> (r: String)
    requires
        text.spec_bytes().len() <= MAX_TEXT,
    ensures
        r@ == spec_lenient_text(
            spec_generate_markdown(text.spec_bytes(), entities_view(entities@)),
        ),
{
    let ghost es = entities_view(entities@);
    let mut markers: Vec<Marker> = Vec::new();
    let mut i: usize = 0;
    assert(markers_view(markers@) =~= Seq::<MarkerView>::empty());
    while i < entities.len()
        invariant
            i <= entities@.len(),
            es == entities_view(entities@),
            markers_view(markers@) == md_markers(es, i as int),
        decreases entities@.len() - i,
    {
        assert(es[i as int] == entity_view(entities@[i as int]));
        match mark_of(&entities[i]) {
            Some((span, mark)) => {
                let open = copy_range(mark.as_bytes(), 0, mark.as_bytes().len());
                let close = copy_range(mark.as_bytes(), 0, mark.as_bytes().len());
                assert(open@ =~= mark.spec_bytes());
                assert(close@ =~= mark.spec_bytes());
                put_pair(&mut markers, span, open, close, 0);
            },
            None => {},
        }
        i += 1;
    }
    let out = weave_text(text.as_bytes(), &markers, false);
    lenient_text(out.as_slice())
}

// ─── HTML: names and tags ────────────────────────────────────────────────────
/// `pat` stands in `s` at the place `i`.
pub open spec fn matches_at(s: Seq<u8>, i: int, pat: Seq<u8>) -> bool {
    0 <= i && i + pat.len() <= s.len() && s.subrange(i, i + pat.len()) == pat
}

/// The text `s` from the place `i` on, with `rep` for each `pat` in it,
/// read from the left.
pub open spec fn replace_from(s: Seq<u8>, i: int, pat: Seq<u8>, rep: Seq<u8>) -> Seq<u8>
    decreases s.len() - i,
{
    if i < 0 || i >= s.len() {
        Seq::empty()
    } else if pat.len() > 0 && matches_at(s, i, pat) {
        rep + replace_from(s, i + pat.len(), pat, rep)
    } else {
        seq![s[i]] + replace_from(s, i + 1, pat, rep)
    }
}

/// The text `s` with `rep` for each `pat` in it.
pub open spec fn spec_replace(s: Seq<u8>, pat: Seq<u8>, rep: Seq<u8>) -> Seq<u8> {
    replace_from(s, 0, pat, rep)
}

/// Whether `pat` stands in `s` at the place `i`.
pub fn is_match_at(s: &[u8], i: usize, pat: &[u8]) -> (r: bool)
    requires
        i <= s@.len(),
    ensures
        r == matches_at(s@, i as int, pat@),
{
    let width = pat.len();
    let total = s.len();
    if width > total - i {
        return false;
    }
    let mut k: usize = 0;
    while k < width
        invariant
            k <= width,
            width == pat@.len(),
            total == s@.len(),
            i + width <= total,
            forall|x: int| 0 <= x < k ==> s@[i + x] == pat@[x],
        decreases width - k,
    {
        if s[i + k] != pat[k] {
            assert(s@.subrange(i as int, i + width)[k as int] != pat@[k as int]);
            return false;
        }
        k += 1;
    }
    assert(s@.subrange(i as int, i + width) =~= pat@);
    true
}

/// A copy of `s` with `rep` for each `pat` in it.
pub fn replace_all(s: &[u8], pat: &str, rep: &str) -> (out: Vec<u8>)
    ensures
        out@ == spec_replace(s@, pat.spec_bytes(), rep.spec_bytes()),
{
    let p = pat.as_bytes();
    let r = rep.as_bytes();
    let total = s.len();
    let mut out: Vec<u8> = Vec::new();
    let mut i: usize = 0;
    assert(out@ + replace_from(s@, 0, p@, r@) =~= replace_from(s@, 0, p@, r@));
    while i < total
        invariant
            i <= total,
            total == s@.len(),
            p@ == pat.spec_bytes(),
            r@ == rep.spec_bytes(),
            out@ + replace_from(s@, i as int, p@, r@) == replace_from(s@, 0, p@, r@),
        decreases total - i,
    {
        let ghost before = out@;
        let ghost rest = replace_from(s@, i as int, p@, r@);
        if p.len() > 0 && is_match_at(s, i, p) {
            push_all(&mut out, r);
            assert(before + rest =~= out@ + replace_from(s@, i + p@.len(), p@, r@));
            i += p.len();
        } else {
            out.push(s[i]);
            assert(before + rest =~= out@ + replace_from(s@, i + 1, p@, r@));
            i += 1;
        }
    }
    assert(out@ + Seq::<u8>::empty() =~= out@);
    out
}

/// Plain text for text of HTML: `&amp;`, `&lt;`, `&gt;`, `&quot;`, `&#39;`
/// and `&nbsp;` give way, one kind after the other in this order, to what
/// they stand for.
pub open spec fn spec_decode_html_entities(s: Seq<u8>) -> Seq<u8> {
    spec_replace(
        spec_replace(
            spec_replace(
                spec_replace(
                    spec_replace(
                        spec_replace(s, "&amp;".spec_bytes(), "&".spec_bytes()),
                        "&lt;".spec_bytes(),
                        "<".spec_bytes(),
                    ),
                    "&gt;".spec_bytes(),
                    ">".spec_bytes(),
                ),
                "&quot;".spec_bytes(),
                "\"".spec_bytes(),
            ),
            "&#39;".spec_bytes(),
            "'".spec_bytes(),
        ),
        "&nbsp;".spec_bytes(),
        "\u{a0}".spec_bytes(),
    )
}

/// Decodes the names of HTML in `s`.
pub fn decode_html_entities(s: &[u8]) -> (out: Vec<u8>)
    ensures
        out@ == spec_decode_html_entities(s@),
{
    let a = replace_all(s, "&amp;", "&");
    let b = replace_all(a.as_slice(), "&lt;", "<");
    let c = replace_all(b.as_slice(), "&gt;", ">");
    let d = replace_all(c.as_slice(), "&quot;", "\"");
    let e = replace_all(d.as_slice(), "&#39;", "'");
    replace_all(e.as_slice(), "&nbsp;", "\u{a0}")
}

/// A text for HTML: `&`, `<`, `>` and `"` are written by their names.
pub open spec fn spec_escape_html(s: Seq<u8>) -> Seq<u8>
    decreases s.len(),
{
    if s.len() == 0 {
        Seq::empty()
    } else {
        spec_escape_html(s.drop_last()) + escaped(s.last())
    }
}

/// Writes `s` for HTML.
pub fn escape_html(s: &[u8]) -> (out: Vec<u8>)
    ensures
        out@ == spec_escape_html(s@),
{
    let mut out: Vec<u8> = Vec::new();
    let mut i: usize = 0;
    assert(s@.take(0) =~= Seq::<u8>::empty());
    while i < s.len()
        invariant
            i <= s@.len(),
            out@ == spec_escape_html(s@.take(i as int)),
        decreases s@.len() - i,
    {
        proof {
            let cur = s@.take(i as int + 1);
            assert(cur.drop_last() =~= s@.take(i as int));
            assert(cur.last() == s@[i as int]);
        }
        push_written(&mut out, s[i], true);
        i += 1;
    }
    assert(s@.take(s@.len() as int) =~= s@);
    out
}

/// The text `s` without the slashes at its end.
pub open spec fn strip_slashes(s: Seq<u8>) -> Seq<u8>
    decreases s.len(),
{
    if s.len() > 0 && s.last() == 0x2f {
        strip_slashes(s.drop_last())
    } else {
        s
    }
}

/// Where the value of an attribute starts and ends in what follows its
/// `=`, and where the rest starts: a value in quotes runs to the next quote
/// of its kind, or where there is none to the last byte but one; another
/// value runs to the next whitespace.
pub open spec fn value_bounds(rem: Seq<u8>) -> (int, int, int) {
    if rem.len() > 0 && (rem[0] == 0x22 || rem[0] == 0x27) {
        let end = match index_of_from(rem, rem[0], 1) {
            Some(p) => p,
            None => if rem.len() >= 2 {
                rem.len() - 1
            } else {
                1
            },
        };
        (
            1,
            end,
            if end + 1 <= rem.len() {
                end + 1
            } else {
                rem.len() as int
            },
        )
    } else {
        (0, first_ws(rem, 0), first_ws(rem, 0))
    }
}

/// The attributes that `rem` writes, each a name and a value, in order.
/// What follows the last value, or stands without `=`, is left aside.
pub open spec fn spec_parse_attrs(rem: Seq<u8>) -> Seq<(Seq<u8>, Seq<u8>)>
    decreases rem.len(),
{
    match index_of_from(rem, 0x3d, 0) {
        None => Seq::empty(),
        Some(eq) => {
            let key = trim(rem.take(eq));
            let after = trim_start(rem.skip(eq + 1));
            let bounds = value_bounds(after);
            let next = trim_start(after.skip(bounds.2));
            seq![(key, after.subrange(bounds.0, bounds.1))] + (if next.len() < rem.len() {
                spec_parse_attrs(next)
            } else {
                Seq::empty()
            })
        },
    }
}

/// The attributes as contracts see them.
pub open spec fn attrs_view(v: Seq<(Vec<u8>, Vec<u8>)>) -> Seq<(Seq<u8>, Seq<u8>)> {
    Seq::new(v.len(), |i: int| (v[i].0@, v[i].1@))
}

/// A copy of `s` from the first byte at or after `from` that is no
/// whitespace.
pub fn trimmed_start(s: &[u8], from: usize) -> (out: Vec<u8>)
    requires
        from <= s@.len(),
    ensures
        out@ == trim_start(s@.skip(from as int)),
        out@.len() <= s@.len() - from,
{
    let a = skip_spaces(s, from);
    let out = copy_range(s, a, s.len());
    proof {
        lemma_first_non_ws_skip(s@, from as int, from as int);
        assert(out@ =~= s@.skip(from as int).skip(a - from));
    }
    out
}

/// The first byte that is no whitespace stands at the same place in a text
/// and in what is left of it without its first `k` bytes.
pub proof fn lemma_first_non_ws_skip(s: Seq<u8>, k: int, i: int)
    requires
        0 <= k <= i <= s.len(),
    ensures
        first_non_ws(s.skip(k), i - k) == first_non_ws(s, i) - k,
    decreases s.len() - i,
{
    if i < s.len() {
        let t = s.skip(k);
        assert(t[i - k] == s[i]);
        if i + 1 < s.len() {
            assert(t[i - k + 1] == s[i + 1]);
        }
        if i + 2 < s.len() {
            assert(t[i - k + 2] == s[i + 2]);
        }
        assert(crate::text::space_len(t, i - k) == crate::text::space_len(s, i));
        if crate::text::space_len(s, i) > 0 {
            lemma_first_non_ws_skip(s, k, i + crate::text::space_len(s, i));
        }
    }
}

/// Reads the attributes that `s` writes, which neither starts nor ends
/// with whitespace.
pub fn parse_attrs(s: &[u8]) -> (out: Vec<(Vec<u8>, Vec<u8>)>)
    ensures
        attrs_view(out@) == spec_parse_attrs(s@),
{
    let mut out: Vec<(Vec<u8>, Vec<u8>)> = Vec::new();
    let mut rem: Vec<u8> = copy_range(s, 0, s.len());
    assert(rem@ =~= s@);
    assert(attrs_view(out@) + spec_parse_attrs(rem@) =~= spec_parse_attrs(s@));
    loop
        invariant
            attrs_view(out@) + spec_parse_attrs(rem@) == spec_parse_attrs(s@),
        decreases rem@.len(),
    {
        let width = rem.len();
        let eq = match find_from(rem.as_slice(), 0x3d, 0) {
            Some(eq) => eq,
            None => {
                assert(attrs_view(out@) + Seq::<(Seq<u8>, Seq<u8>)>::empty() =~= attrs_view(
                    out@,
                ));
                return out;
            },
        };
        let ghost before = attrs_view(out@);
        let ghost all = spec_parse_attrs(rem@);
        let head = copy_range(rem.as_slice(), 0, eq);
        assert(head@ =~= rem@.take(eq as int));
        let key = trimmed(head.as_slice());
        assert(eq < width);
        let after = trimmed_start(rem.as_slice(), eq + 1);
        let total = after.len();
        let (a, b, c): (usize, usize, usize) = if total > 0 && (after[0] == 0x22 || after[0]
            == 0x27) {
            let end: usize = match find_from(after.as_slice(), after[0], 1) {
                Some(p) => p,
                None => if total >= 2 {
                    total - 1
                } else {
                    1
                },
            };
            let rest: usize = if end < total {
                end + 1
            } else {
                total
            };
            (1, end, rest)
        } else {
            let end = skip_token(after.as_slice(), 0);
            (0, end, end)
        };
        assert((a as int, b as int, c as int) == value_bounds(after@));
        let value = if a <= b && b <= total {
            copy_range(after.as_slice(), a, b)
        } else {
            Vec::new()
        };
        assert(value@ =~= after@.subrange(a as int, b as int)) by {
            if !(a <= b && b <= total) {
                assert(total == 1 && a == 1 && b == 1);
            }
        }
        let next = trimmed_start(after.as_slice(), c);
        out.push((key, value));
        assert(attrs_view(out@) =~= before.push((key@, value@)));
        assert(next@.len() < rem@.len());
        assert(before + all =~= attrs_view(out@) + spec_parse_attrs(next@));
        rem = next;
    }
}

/// The name of the tag that `s` writes: what stands before its first
/// whitespace, without slashes at the end.
pub open spec fn spec_tag_name(s: Seq<u8>) -> Seq<u8> {
    strip_slashes(s.take(first_ws(s, 0)))
}

/// The attributes of the tag that `s` writes: those that stand behind the
/// first whitespace.
pub open spec fn spec_tag_attrs(s: Seq<u8>) -> Seq<(Seq<u8>, Seq<u8>)> {
    let w = first_ws(s, 0);
    if w < s.len() {
        spec_parse_attrs(trim(s.skip(w + crate::text::space_len(s, w))))
    } else {
        Seq::empty()
    }
}

/// Reads the name and the attributes of the tag that `s` writes.
pub fn parse_tag(s: &[u8]) -> (r: (Vec<u8>, Vec<(Vec<u8>, Vec<u8>)>))
    ensures
        r.0@ == spec_tag_name(s@),
        attrs_view(r.1@) == spec_tag_attrs(s@),
{
    let w = skip_token(s, 0);
    let mut end: usize = w;
    assert(s@.take(w as int).take(end as int) =~= s@.take(w as int));
    while end > 0 && s[end - 1] == 0x2f
        invariant
            end <= w <= s@.len(),
            strip_slashes(s@.take(w as int)) == strip_slashes(s@.take(end as int)),
        decreases end,
    {
        assert(s@.take(end as int).last() == s@[end - 1]);
        assert(s@.take(end as int).drop_last() =~= s@.take(end - 1));
        end -= 1;
    }
    proof {
        if end > 0 {
            assert(s@.take(end as int).last() == s@[end - 1]);
        }
    }
    let name = copy_range(s, 0, end);
    assert(name@ =~= s@.take(end as int));
    let attrs = if w < s.len() {
        let width = crate::text::space_len_at(s, w);
        let rest = copy_range(s, w + width, s.len());
        assert(rest@ =~= s@.skip(w + width));
        let rest = trimmed(rest.as_slice());
        parse_attrs(rest.as_slice())
    } else {
        let none: Vec<(Vec<u8>, Vec<u8>)> = Vec::new();
        assert(attrs_view(none@) =~= Seq::<(Seq<u8>, Seq<u8>)>::empty());
        none
    };
    (name, attrs)
}

// ─── HTML taken apart ────────────────────────────────────────────────────────
/// A tag of HTML that is open.
#[derive(Debug, PartialEq, Eq)]
pub enum HtmlTag {
    Bold,
    Italic,
    Underline,
    Strike,
    Spoiler,
    Code,
    Pre,
    /// A link, with its address.
    Link(Vec<u8>),
    /// A custom emoji, with the number of its document.
    CustomEmoji(i64),
    /// A tag that stands for no formatting.
    Unknown,
}

/// An open tag as contracts see it.
pub enum HtmlTagView {
    Bold,
    Italic,
    Underline,
    Strike,
    Spoiler,
    Code,
    Pre,
    Link(Seq<u8>),
    CustomEmoji(i64),
    Unknown,
}

impl View for HtmlTag {
    type V = HtmlTagView;

    open spec fn view(&self) -> HtmlTagView {
        match self {
            HtmlTag::Bold => HtmlTagView::Bold,
            HtmlTag::Italic => HtmlTagView::Italic,
            HtmlTag::Underline => HtmlTagView::Underline,
            HtmlTag::Strike => HtmlTagView::Strike,
            HtmlTag::Spoiler => HtmlTagView::Spoiler,
            HtmlTag::Code => HtmlTagView::Code,
            HtmlTag::Pre => HtmlTagView::Pre,
            HtmlTag::Link(url) => HtmlTagView::Link(url@),
            HtmlTag::CustomEmoji(id) => HtmlTagView::CustomEmoji(*id),
            HtmlTag::Unknown => HtmlTagView::Unknown,
        }
    }
}

/// The name by which a tag is closed.
pub open spec fn tag_label(t: HtmlTagView) -> Seq<u8> {
    match t {
        HtmlTagView::Bold => "b".spec_bytes(),
        HtmlTagView::Italic => "i".spec_bytes(),
        HtmlTagView::Underline => "u".spec_bytes(),
        HtmlTagView::Strike => "s".spec_bytes(),
        HtmlTagView::Spoiler => "tg-spoiler".spec_bytes(),
        HtmlTagView::Code => "code".spec_bytes(),
        HtmlTagView::Pre => "pre".spec_bytes(),
        HtmlTagView::Link(_) => "a".spec_bytes(),
        HtmlTagView::CustomEmoji(_) => "tg-emoji".spec_bytes(),
        HtmlTagView::Unknown => "".spec_bytes(),
    }
}

impl HtmlTag {
    /// The name by which the tag is closed.
    pub fn name(&self) -> (r: &'static str)
        ensures
            r.spec_bytes() == tag_label(self@),
    {
        match self {
            HtmlTag::Bold => "b",
            HtmlTag::Italic => "i",
            HtmlTag::Underline => "u",
            HtmlTag::Strike => "s",
            HtmlTag::Spoiler => "tg-spoiler",
            HtmlTag::Code => "code",
            HtmlTag::Pre => "pre",
            HtmlTag::Link(_) => "a",
            HtmlTag::CustomEmoji(_) => "tg-emoji",
            HtmlTag::Unknown => "",
        }
    }
}

/// What has been read of a text of HTML: the plain text so far, the
/// formatting that is complete, and the tags that are still open, each with
/// the place where it was opened.
pub struct HtmlState {
    pub out: Seq<u8>,
    pub ents: Seq<EntityView>,
    pub stack: Seq<(HtmlTagView, i32)>,
}

/// The open tags as contracts see them.
pub open spec fn tags_view(v: Seq<(HtmlTag, i32)>) -> Seq<(HtmlTagView, i32)> {
    Seq::new(v.len(), |i: int| (v[i].0@, v[i].1))
}

/// The place of the tag closed by `name` that was opened last.
pub open spec fn last_named(stack: Seq<(HtmlTagView, i32)>, name: Seq<u8>) -> Option<int>
    decreases stack.len(),
{
    if stack.len() == 0 {
        None
    } else if tag_label(stack.last().0) == name {
        Some(stack.len() - 1)
    } else {
        last_named(stack.drop_last(), name)
    }
}

/// The formatting that a tag stands for over `span`.
pub open spec fn html_entity(tag: HtmlTagView, span: Span) -> Option<EntityView> {
    match tag {
        HtmlTagView::Bold => Some(EntityView::Bold(span)),
        HtmlTagView::Italic => Some(EntityView::Italic(span)),
        HtmlTagView::Underline => Some(EntityView::Underline(span)),
        HtmlTagView::Strike => Some(EntityView::Strike(span)),
        HtmlTagView::Spoiler => Some(EntityView::Spoiler(span)),
        HtmlTagView::Code => Some(EntityView::Code(span)),
        HtmlTagView::Pre => Some(EntityView::Pre { span, language: Seq::empty() }),
        HtmlTagView::Link(url) => link_entity(span, url),
        HtmlTagView::CustomEmoji(id) => Some(EntityView::CustomEmoji { span, document_id: id }),
        HtmlTagView::Unknown => None,
    }
}

/// The value of the first attribute named `key` from the place `from` on.
pub open spec fn attr_value(attrs: Seq<(Seq<u8>, Seq<u8>)>, key: Seq<u8>, from: int) -> Option<
    Seq<u8>,
>
    decreases attrs.len() - from,
{
    if from < 0 || from >= attrs.len() {
        None
    } else if attrs[from].0 == key {
        Some(attrs[from].1)
    } else {
        attr_value(attrs, key, from + 1)
    }
}

/// The tag that the name `name` opens with the attributes `attrs`.
pub open spec fn opened_tag(name: Seq<u8>, attrs: Seq<(Seq<u8>, Seq<u8>)>) -> HtmlTagView {
    if name == "b".spec_bytes() || name == "strong".spec_bytes() {
        HtmlTagView::Bold
    } else if name == "i".spec_bytes() || name == "em".spec_bytes() {
        HtmlTagView::Italic
    } else if name == "u".spec_bytes() {
        HtmlTagView::Underline
    } else if name == "s".spec_bytes() || name == "del".spec_bytes() || name
        == "strike".spec_bytes() {
        HtmlTagView::Strike
    } else if name == "tg-spoiler".spec_bytes() {
        HtmlTagView::Spoiler
    } else if name == "code".spec_bytes() {
        HtmlTagView::Code
    } else if name == "pre".spec_bytes() {
        HtmlTagView::Pre
    } else if name == "a".spec_bytes() {
        HtmlTagView::Link(
            match attr_value(attrs, "href".spec_bytes(), 0) {
                Some(v) => v,
                None => Seq::empty(),
            },
        )
    } else if name == "tg-emoji".spec_bytes() {
        HtmlTagView::CustomEmoji(
            match attr_value(attrs, "emoji-id".spec_bytes(), 0) {
                Some(v) => match spec_parse_i64(v) {
                    Some(id) => id,
                    None => 0,
                },
                None => 0,
            },
        )
    } else {
        HtmlTagView::Unknown
    }
}

/// The state after the tag named `name` was closed: the last open tag of
/// that name is taken away, and the text since it was opened is formatted
/// if there is any. Without such a tag nothing changes.
pub open spec fn after_close(st: HtmlState, name: Seq<u8>) -> HtmlState {
    let off = utf16_len(st.out) as i32;
    match last_named(st.stack, name) {
        Some(pos) => {
            let begin = st.stack[pos].1;
            let span = Span { offset: begin, length: (off - begin) as i32 };
            HtmlState {
                out: st.out,
                ents: if off - begin > 0 {
                    match html_entity(st.stack[pos].0, span) {
                        Some(e) => st.ents.push(e),
                        None => st.ents,
                    }
                } else {
                    st.ents
                },
                stack: st.stack.remove(pos),
            }
        },
        None => st,
    }
}

/// The state after the tag with the content `content` was read: a tag
/// that starts with `/` closes; `br` is a line feed; any other tag is
/// opened.
pub open spec fn html_tag_step(st: HtmlState, content: Seq<u8>) -> HtmlState {
    let closes = content.len() > 0 && content[0] == 0x2f;
    let tag = trim(
        if closes {
            content.skip(1)
        } else {
            content
        },
    );
    let name = spec_tag_name(tag);
    if closes {
        after_close(st, name)
    } else if name == "br".spec_bytes() {
        HtmlState { out: st.out.push(0x0au8), ents: st.ents, stack: st.stack }
    } else {
        HtmlState {
            out: st.out,
            ents: st.ents,
            stack: st.stack.push(
                (opened_tag(name, spec_tag_attrs(tag)), utf16_len(st.out) as i32),
            ),
        }
    }
}

/// The place of the first `c` at or after `from`; the length of `s` where
/// there is none.
pub open spec fn next_or_end(s: Seq<u8>, c: u8, from: int) -> int {
    match index_of_from(s, c, from) {
        Some(j) => j,
        None => s.len() as int,
    }
}

/// One step through a text of HTML from the place `i`: the place to go on
/// at, and the state there. A tag runs from `<` to the next `>`; text runs
/// to the next `<`, and the names in it are decoded.
pub open spec fn html_step(s: Seq<u8>, i: int, st: HtmlState) -> (int, HtmlState) {
    if s[i] == 0x3c {
        let j = next_or_end(s, 0x3e, i + 1);
        (j + 1, html_tag_step(st, s.subrange(i + 1, j)))
    } else {
        let k = next_or_end(s, 0x3c, i);
        (
            k,
            HtmlState {
                out: st.out + spec_decode_html_entities(s.subrange(i, k)),
                ents: st.ents,
                stack: st.stack,
            },
        )
    }
}

/// The state at the end of a text of HTML that is read from the place `i`
/// on in the state `st`.
pub open spec fn html_run(s: Seq<u8>, i: int, st: HtmlState) -> HtmlState
    decreases s.len() - i,
{
    if i < 0 || i >= s.len() {
        st
    } else {
        let next = html_step(s, i, st);
        if i < next.0 <= s.len() {
            html_run(s, next.0, next.1)
        } else {
            next.1
        }
    }
}

/// The plain text of a text of HTML and its formatting, in the order in
/// which the tags are closed. Tags that are never closed format nothing.
pub open spec fn spec_parse_html(s: Seq<u8>) -> (Seq<u8>, Seq<EntityView>) {
    let end = html_run(
        s,
        0,
        HtmlState { out: Seq::empty(), ents: Seq::empty(), stack: Seq::empty() },
    );
    (end.out, end.ents)
}

/// A text does not grow where what is put in is no longer than what is
/// taken out.
pub proof fn lemma_replace_len(s: Seq<u8>, i: int, pat: Seq<u8>, rep: Seq<u8>)
    requires
        0 <= i <= s.len(),
        rep.len() <= pat.len(),
    ensures
        replace_from(s, i, pat, rep).len() <= s.len() - i,
    decreases s.len() - i,
{
    if i < s.len() {
        if pat.len() > 0 && matches_at(s, i, pat) {
            lemma_replace_len(s, i + pat.len(), pat, rep);
        } else {
            lemma_replace_len(s, i + 1, pat, rep);
        }
    }
}

/// The bytes of a text of ASCII are as many as its characters.
proof fn lemma_ascii_len(s: &str)
    requires
        vstd::utf8::is_ascii_chars(s@),
    ensures
        s.spec_bytes().len() == s@.len(),
{
    vstd::utf8::is_ascii_chars_encode_utf8(s@);
}

/// A text of one character has at most four bytes.
proof fn lemma_one_char_len(s: &str)
    requires
        s@.len() == 1,
    ensures
        s.spec_bytes().len() <= 4,
{
    assert(s@.drop_first() =~= Seq::<char>::empty());
    reveal_with_fuel(vstd::utf8::encode_utf8, 2);
}

/// Decoded text is no longer than the text it was decoded from.
pub proof fn lemma_decode_len(s: Seq<u8>)
    ensures
        spec_decode_html_entities(s).len() <= s.len(),
{
    reveal_strlit("&amp;");
    reveal_strlit("&");
    reveal_strlit("&lt;");
    reveal_strlit("<");
    reveal_strlit("&gt;");
    reveal_strlit(">");
    reveal_strlit("&quot;");
    reveal_strlit("\"");
    reveal_strlit("&#39;");
    reveal_strlit("'");
    reveal_strlit("&nbsp;");
    reveal_strlit("\u{a0}");
    lemma_ascii_len("&amp;");
    lemma_ascii_len("&");
    lemma_ascii_len("&lt;");
    lemma_ascii_len("<");
    lemma_ascii_len("&gt;");
    lemma_ascii_len(">");
    lemma_ascii_len("&quot;");
    lemma_ascii_len("\"");
    lemma_ascii_len("&#39;");
    lemma_ascii_len("'");
    lemma_ascii_len("&nbsp;");
    lemma_one_char_len("\u{a0}");
    let a = spec_replace(s, "&amp;".spec_bytes(), "&".spec_bytes());
    let b = spec_replace(a, "&lt;".spec_bytes(), "<".spec_bytes());
    let c = spec_replace(b, "&gt;".spec_bytes(), ">".spec_bytes());
    let d = spec_replace(c, "&quot;".spec_bytes(), "\"".spec_bytes());
    let e = spec_replace(d, "&#39;".spec_bytes(), "'".spec_bytes());
    lemma_replace_len(s, 0, "&amp;".spec_bytes(), "&".spec_bytes());
    lemma_replace_len(a, 0, "&lt;".spec_bytes(), "<".spec_bytes());
    lemma_replace_len(b, 0, "&gt;".spec_bytes(), ">".spec_bytes());
    lemma_replace_len(c, 0, "&quot;".spec_bytes(), "\"".spec_bytes());
    lemma_replace_len(d, 0, "&#39;".spec_bytes(), "'".spec_bytes());
    lemma_replace_len(e, 0, "&nbsp;".spec_bytes(), "\u{a0}".spec_bytes());
}

/// The state that the parser of HTML is in.
pub open spec fn html_state(r: Reading, stack: Seq<(HtmlTag, i32)>) -> HtmlState {
    HtmlState { out: r.out@, ents: entities_view(r.ents@), stack: tags_view(stack) }
}

/// Finds the tag closed by `name` that was opened last.
pub fn find_named(stack: &Vec<(HtmlTag, i32)>, name: &[u8]) -> (r: Option<usize>)
    ensures
        match last_named(tags_view(stack@), name@) {
            Some(pos) => r is Some && r->Some_0 as int == pos && 0 <= pos < stack@.len(),
            None => r is None,
        },
{
    let ghost all = tags_view(stack@);
    let mut i: usize = stack.len();
    assert(all.take(i as int) =~= all);
    while i > 0
        invariant
            i <= stack@.len(),
            all == tags_view(stack@),
            last_named(all, name@) == last_named(all.take(i as int), name@),
        decreases i,
    {
        i -= 1;
        assert(all.take(i as int + 1).last() == all[i as int]);
        assert(all[i as int].0 == stack@[i as int].0@);
        if bytes_eq(stack[i].0.name().as_bytes(), name) {
            return Some(i);
        }
        assert(all.take(i as int + 1).drop_last() =~= all.take(i as int));
    }
    None
}

/// Finds the first attribute named `key`.
pub fn find_attr(attrs: &Vec<(Vec<u8>, Vec<u8>)>, key: &str) -> (r: Option<usize>)
    ensures
        match attr_value(attrs_view(attrs@), key.spec_bytes(), 0) {
            Some(v) => r is Some && r->Some_0 < attrs@.len() && attrs@[r->Some_0 as int].1@ == v,
            None => r is None,
        },
{
    let ghost all = attrs_view(attrs@);
    let mut i: usize = 0;
    while i < attrs.len()
        invariant
            i <= attrs@.len(),
            all == attrs_view(attrs@),
            attr_value(all, key.spec_bytes(), 0) == attr_value(all, key.spec_bytes(), i as int),
        decreases attrs@.len() - i,
    {
        assert(all[i as int] == (attrs@[i as int].0@, attrs@[i as int].1@));
        if bytes_eq(attrs[i].0.as_slice(), key.as_bytes()) {
            return Some(i);
        }
        i += 1;
    }
    None
}

/// The tag that `name` opens with the attributes `attrs`.
pub fn open_tag(name: &[u8], attrs: &Vec<(Vec<u8>, Vec<u8>)>) -> (t: HtmlTag)
    ensures
        t@ == opened_tag(name@, attrs_view(attrs@)),
{
    if bytes_eq(name, "b".as_bytes()) || bytes_eq(name, "strong".as_bytes()) {
        HtmlTag::Bold
    } else if bytes_eq(name, "i".as_bytes()) || bytes_eq(name, "em".as_bytes()) {
        HtmlTag::Italic
    } else if bytes_eq(name, "u".as_bytes()) {
        HtmlTag::Underline
    } else if bytes_eq(name, "s".as_bytes()) || bytes_eq(name, "del".as_bytes()) || bytes_eq(
        name,
        "strike".as_bytes(),
    ) {
        HtmlTag::Strike
    } else if bytes_eq(name, "tg-spoiler".as_bytes()) {
        HtmlTag::Spoiler
    } else if bytes_eq(name, "code".as_bytes()) {
        HtmlTag::Code
    } else if bytes_eq(name, "pre".as_bytes()) {
        HtmlTag::Pre
    } else if bytes_eq(name, "a".as_bytes()) {
        match find_attr(attrs, "href") {
            Some(at) => {
                let url = copy_range(attrs[at].1.as_slice(), 0, attrs[at].1.len());
                assert(url@ =~= attrs@[at as int].1@);
                HtmlTag::Link(url)
            },
            None => HtmlTag::Link(Vec::new()),
        }
    } else if bytes_eq(name, "tg-emoji".as_bytes()) {
        match find_attr(attrs, "emoji-id") {
            Some(at) => match parse_i64(attrs[at].1.as_slice()) {
                Some(id) => HtmlTag::CustomEmoji(id),
                None => HtmlTag::CustomEmoji(0),
            },
            None => HtmlTag::CustomEmoji(0),
        }
    } else {
        HtmlTag::Unknown
    }
}

/// The formatting that `tag` stands for over `span`.
pub fn entity_for_html(tag: HtmlTag, span: Span) -> (e: Option<MessageEntity>)
    ensures
        match html_entity(tag@, span) {
            Some(v) => e is Some && entity_view(e->Some_0) == v,
            None => e is None,
        },
{
    match tag {
        HtmlTag::Bold => Some(MessageEntity::Bold(span)),
        HtmlTag::Italic => Some(MessageEntity::Italic(span)),
        HtmlTag::Underline => Some(MessageEntity::Underline(span)),
        HtmlTag::Strike => Some(MessageEntity::Strike(span)),
        HtmlTag::Spoiler => Some(MessageEntity::Spoiler(span)),
        HtmlTag::Code => Some(MessageEntity::Code(span)),
        HtmlTag::Pre => Some(MessageEntity::Pre { span, language: String::new() }),
        HtmlTag::Link(url) => entity_for_link(span, url.as_slice()),
        HtmlTag::CustomEmoji(id) => Some(MessageEntity::CustomEmoji { span, document_id: id }),
        HtmlTag::Unknown => None,
    }
}

/// Closes the tag named `name`.
fn html_close(r: &mut Reading, stack: &mut Vec<(HtmlTag, i32)>, name: &[u8])
    requires
        old(r).wf(0),
        forall|k: int| 0 <= k < old(stack)@.len() ==> (#[trigger] old(stack)@[k]).1 >= 0,
    ensures
        final(r).wf(0),
        final(r).out == old(r).out,
        forall|k: int| 0 <= k < final(stack)@.len() ==> (#[trigger] final(stack)@[k]).1 >= 0,
        html_state(*final(r), final(stack)@) == after_close(
            html_state(*old(r), old(stack)@),
            name@,
        ),
{
    proof {
        lemma_utf16_len(r.out@, Seq::<u8>::empty());
    }
    let ghost before = tags_view(stack@);
    match find_named(stack, name) {
        Some(pos) => {
            assert(before[pos as int] == (stack@[pos as int].0@, stack@[pos as int].1));
            let opened = stack.remove(pos);
            assert(tags_view(stack@) =~= before.remove(pos as int));
            let length = r.off - opened.1;
            if length > 0 {
                match entity_for_html(opened.0, Span { offset: opened.1, length }) {
                    Some(e) => {
                        r.note(e);
                    },
                    None => {},
                }
            }
        },
        None => {},
    }
}

/// Reads the tag with the content `content`.
fn html_tag(r: &mut Reading, stack: &mut Vec<(HtmlTag, i32)>, content: &[u8])
    requires
        old(r).wf(1),
        forall|k: int| 0 <= k < old(stack)@.len() ==> (#[trigger] old(stack)@[k]).1 >= 0,
    ensures
        final(r).wf(0),
        final(r).out@.len() <= old(r).out@.len() + 1,
        forall|k: int| 0 <= k < final(stack)@.len() ==> (#[trigger] final(stack)@[k]).1 >= 0,
        html_state(*final(r), final(stack)@) == html_tag_step(
            html_state(*old(r), old(stack)@),
            content@,
        ),
{
    proof {
        lemma_utf16_len(r.out@, Seq::<u8>::empty());
    }
    let closes = content.len() > 0 && content[0] == 0x2f;
    let inner = if closes {
        let rest = copy_range(content, 1, content.len());
        assert(rest@ =~= content@.skip(1));
        trimmed(rest.as_slice())
    } else {
        trimmed(content)
    };
    let (name, attrs) = parse_tag(inner.as_slice());
    if closes {
        html_close(r, stack, name.as_slice());
    } else if bytes_eq(name.as_slice(), "br".as_bytes()) {
        let ghost before = r.out@;
        r.out.push(0x0a);
        r.off = r.off + 1;
        proof {
            assert(r.out@.drop_last() =~= before);
            lemma_utf16_len(r.out@, Seq::<u8>::empty());
        }
    } else {
        let ghost before = tags_view(stack@);
        let tag = open_tag(name.as_slice(), &attrs);
        stack.push((tag, r.off));
        assert(tags_view(stack@) =~= before.push((tag@, r.off)));
    }
}

/// Takes a text of HTML apart into its plain text and its formatting.
/// `<b>`, `<i>`, `<u>`, `<s>`, `<tg-spoiler>`, `<code>` and `<pre>` enclose
/// formatted text, `<a href="…">` a link or a mention, `<tg-emoji
/// emoji-id="…">` a custom emoji; `<br>` is a line feed; other tags are
/// passed over. A tag is closed by the short form of its name.
pub fn parse_html(html: &str) -> (r: (String, Vec<MessageEntity>))
    requires
        html.spec_bytes().len() <= MAX_TEXT,
    ensures
        r.0@ == spec_lenient_text(spec_parse_html(html.spec_bytes()).0),
        entities_view(r.1@) == spec_parse_html(html.spec_bytes()).1,
{
    let s = html.as_bytes();
    let total = s.len();
    let mut r = Reading::new();
    let mut stack: Vec<(HtmlTag, i32)> = Vec::new();
    let mut i: usize = 0;
    let ghost first = html_state(r, stack@);
    assert(tags_view(stack@) =~= Seq::<(HtmlTagView, i32)>::empty());
    assert(first == (HtmlState { out: Seq::empty(), ents: Seq::empty(), stack: Seq::empty() }));
    proof {
        lemma_utf16_len(r.out@, Seq::<u8>::empty());
    }
    while i < total
        invariant
            i <= total + 1,
            total == s@.len(),
            total <= MAX_TEXT,
            r.out@.len() <= i,
            r.out@.len() <= total,
            r.wf(0),
            forall|k: int| 0 <= k < stack@.len() ==> (#[trigger] stack@[k]).1 >= 0,
            html_run(s@, 0, first) == html_run(s@, i as int, html_state(r, stack@)),
        decreases total + 1 - i,
    {
        let ghost st = html_state(r, stack@);
        if s[i] == 0x3c {
            let j = match find_from(s, 0x3e, i + 1) {
                Some(j) => j,
                None => total,
            };
            let content = copy_range(s, i + 1, j);
            html_tag(&mut r, &mut stack, content.as_slice());
            assert(html_step(s@, i as int, st) == (j as int + 1, html_state(r, stack@)));
            i = j + 1;
        } else {
            let k = match find_from(s, 0x3c, i) {
                Some(k) => k,
                None => total,
            };
            let raw = copy_range(s, i, k);
            let decoded = decode_html_entities(raw.as_slice());
            proof {
                lemma_decode_len(raw@);
            }
            let length = r.take_text(decoded.as_slice(), 0, decoded.len());
            assert(decoded@.subrange(0, decoded@.len() as int) =~= decoded@);
            assert(html_step(s@, i as int, st) == (k as int, html_state(r, stack@)));
            i = k;
        }
    }
    (lenient_text(r.out.as_slice()), r.ents)
}

// ─── HTML written out ────────────────────────────────────────────────────────
/// The tag that opens a piece of formatting; none for formatting that
/// HTML is not written for.
pub open spec fn html_open(e: EntityView) -> Option<Seq<u8>> {
    match e {
        EntityView::Bold(_) => Some("<b>".spec_bytes()),
        EntityView::Italic(_) => Some("<i>".spec_bytes()),
        EntityView::Underline(_) => Some("<u>".spec_bytes()),
        EntityView::Strike(_) => Some("<s>".spec_bytes()),
        EntityView::Spoiler(_) => Some("<tg-spoiler>".spec_bytes()),
        EntityView::Code(_) => Some("<code>".spec_bytes()),
        EntityView::Pre { language, .. } => Some(
            "<pre><code".spec_bytes() + (if language.len() == 0 {
                Seq::empty()
            } else {
                " class=\"language-".spec_bytes() + encode_utf8(language) + "\"".spec_bytes()
            }) + ">".spec_bytes(),
        ),
        EntityView::TextUrl { url, .. } => Some(
            "<a href=\"".spec_bytes() + spec_escape_html(encode_utf8(url)) + "\">".spec_bytes(),
        ),
        EntityView::MentionName { user_id, .. } => Some(
            "<a href=\"tg://user?id=".spec_bytes() + spec_decimal_int(user_id as int)
                + "\">".spec_bytes(),
        ),
        EntityView::CustomEmoji { document_id, .. } => Some(
            "<tg-emoji emoji-id=\"".spec_bytes() + spec_decimal_int(document_id as int)
                + "\">".spec_bytes(),
        ),
        _ => None,
    }
}

/// The tag that closes a piece of formatting.
pub open spec fn html_close_tag(e: EntityView) -> Seq<u8> {
    match e {
        EntityView::Bold(_) => "</b>".spec_bytes(),
        EntityView::Italic(_) => "</i>".spec_bytes(),
        EntityView::Underline(_) => "</u>".spec_bytes(),
        EntityView::Strike(_) => "</s>".spec_bytes(),
        EntityView::Spoiler(_) => "</tg-spoiler>".spec_bytes(),
        EntityView::Code(_) => "</code>".spec_bytes(),
        EntityView::Pre { .. } => "</code></pre>".spec_bytes(),
        EntityView::TextUrl { .. } => "</a>".spec_bytes(),
        EntityView::MentionName { .. } => "</a>".spec_bytes(),
        EntityView::CustomEmoji { .. } => "</tg-emoji>".spec_bytes(),
        _ => Seq::empty(),
    }
}

/// The tags of HTML for the first `n` pieces of formatting, ordered by
/// place; at one place the opening tags stand before the closing ones, and
/// otherwise in the order in which they were made.
pub open spec fn html_markers(es: Seq<EntityView>, n: int) -> Seq<MarkerView>
    decreases n,
{
    if n <= 0 {
        Seq::empty()
    } else {
        let before = html_markers(es, n - 1);
        match html_open(es[n - 1]) {
            Some(t) => with_pair(
                before,
                span_of_entity(es[n - 1]),
                t,
                html_close_tag(es[n - 1]),
                1,
            ),
            None => before,
        }
    }
}

/// The text `s` as HTML with the tags for the formatting `es`.
pub open spec fn spec_generate_html(s: Seq<u8>, es: Seq<EntityView>) -> Seq<u8> {
    weave(s, 0, html_markers(es, es.len() as int), 0, 0, true)
}

/// A copy of the bytes of `s`.
fn bytes_of(s: &str) -> (out: Vec<u8>)
    ensures
        out@ == s.spec_bytes(),
{
    let out = copy_range(s.as_bytes(), 0, s.as_bytes().len());
    assert(out@ =~= s.spec_bytes());
    out
}

/// The tags of HTML for a piece of formatting, and its place.
pub fn tags_of(e: &MessageEntity) -> (r: Option<(Span, Vec<u8>, Vec<u8>)>)
    ensures
        match html_open(entity_view(*e)) {
            Some(t) => r is Some && r->Some_0.0 == span_of_entity(entity_view(*e))
                && r->Some_0.1@ == t && r->Some_0.2@ == html_close_tag(entity_view(*e)),
            None => r is None,
        },
{
    match e {
        MessageEntity::Bold(s) => Some((*s, bytes_of("<b>"), bytes_of("</b>"))),
        MessageEntity::Italic(s) => Some((*s, bytes_of("<i>"), bytes_of("</i>"))),
        MessageEntity::Underline(s) => Some((*s, bytes_of("<u>"), bytes_of("</u>"))),
        MessageEntity::Strike(s) => Some((*s, bytes_of("<s>"), bytes_of("</s>"))),
        MessageEntity::Spoiler(s) => Some(
            (*s, bytes_of("<tg-spoiler>"), bytes_of("</tg-spoiler>")),
        ),
        MessageEntity::Code(s) => Some((*s, bytes_of("<code>"), bytes_of("</code>"))),
        MessageEntity::Pre { span, language } => {
            let mut open = bytes_of("<pre><code");
            let ghost head = open@;
            let ghost class = if language@.len() == 0 {
                Seq::<u8>::empty()
            } else {
                " class=\"language-".spec_bytes() + encode_utf8(language@) + "\"".spec_bytes()
            };
            if language.as_str().as_bytes().len() > 0 {
                push_all(&mut open, " class=\"language-".as_bytes());
                push_all(&mut open, language.as_str().as_bytes());
                push_all(&mut open, "\"".as_bytes());
            }
            proof {
                lemma_empty_text(language@);
                assert(open@ =~= head + class);
            }
            push_all(&mut open, ">".as_bytes());
            Some((*span, open, bytes_of("</code></pre>")))
        },
        MessageEntity::TextUrl { span, url } => {
            let mut open = bytes_of("<a href=\"");
            let address = escape_html(url.as_str().as_bytes());
            push_all(&mut open, address.as_slice());
            push_all(&mut open, "\">".as_bytes());
            Some((*span, open, bytes_of("</a>")))
        },
        MessageEntity::MentionName { span, user_id } => {
            let mut open = bytes_of("<a href=\"tg://user?id=");
            push_decimal_i64(&mut open, *user_id);
            push_all(&mut open, "\">".as_bytes());
            Some((*span, open, bytes_of("</a>")))
        },
        MessageEntity::CustomEmoji { span, document_id } => {
            let mut open = bytes_of("<tg-emoji emoji-id=\"");
            push_decimal_i64(&mut open, *document_id);
            push_all(&mut open, "\">".as_bytes());
            Some((*span, open, bytes_of("</tg-emoji>")))
        },
        _ => None,
    }
}

/// A text has no bytes just when it has no characters.
pub proof fn lemma_empty_text(chars: Seq<char>)
    ensures
        (encode_utf8(chars).len() == 0) == (chars.len() == 0),
{
    if chars.len() > 0 {
        assert(encode_utf8(chars) == vstd::utf8::encode_scalar(chars[0] as u32) + encode_utf8(
            chars.drop_first(),
        ));
    }
}

/// Writes a text with its formatting as HTML. `&`, `<`, `>` and `"` of the
/// text are written by their names.
pub fn generate_html(text: &str, entities: &[MessageEntity]) -> (r: String)
    requires
        text.spec_bytes().len() <= MAX_TEXT,
    ensures
        r@ == spec_lenient_text(spec_generate_html(text.spec_bytes(), entities_view(entities@))),
{
    let ghost es = entities_view(entities@);
    let mut markers: Vec<Marker> = Vec::new();
    let mut i: usize = 0;
    assert(markers_view(markers@) =~= Seq::<MarkerView>::empty());
    while i < entities.len()
        invariant
            i <= entities@.len(),
            es == entities_view(entities@),
            markers_view(markers@) == html_markers(es, i as int),
        decreases entities@.len() - i,
    {
        assert(es[i as int] == entity_view(entities@[i as int]));
        match tags_of(&entities[i]) {
            Some((span, open, close)) => {
                put_pair(&mut markers, span, open, close, 1);
            },
            None => {},
        }
        i += 1;
    }
    let out = weave_text(text.as_bytes(), &markers, true);
    lenient_text(out.as_slice())
}

} // verus!

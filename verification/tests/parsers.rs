use layer::client::api::enums::MessageEntity;
use layer::client::api::types::Span;
use layer::client::parsers::{
    decode_html_entities, escape_html, generate_html, generate_markdown, parse_attrs, parse_html,
    parse_i64, parse_markdown, parse_tag, replace_all, utf16_count, HtmlTag,
};

fn span(offset: i32, length: i32) -> Span {
    Span { offset, length }
}

#[test]
fn markdown_bold() {
    let (text, ents) = parse_markdown("Hello **world**!");
    assert_eq!(text, "Hello world!");
    assert_eq!(ents.len(), 1);
    if let MessageEntity::Bold(b) = &ents[0] {
        assert_eq!(b.offset, 6);
        assert_eq!(b.length, 5);
    } else {
        panic!("expected bold");
    }
}

#[test]
fn markdown_inline_code() {
    let (text, ents) = parse_markdown("Use `foo()` to do it");
    assert_eq!(text, "Use foo() to do it");
    assert!(matches!(ents[0], MessageEntity::Code(_)));
}

#[test]
fn html_bold_italic() {
    let (text, ents) = parse_html("<b>bold</b> and <i>italic</i>");
    assert_eq!(text, "bold and italic");
    assert_eq!(ents.len(), 2);
}

#[test]
fn html_link() {
    let (text, ents) = parse_html("<a href=\"https://example.com\">click</a>");
    assert_eq!(text, "click");
    if let MessageEntity::TextUrl { url, .. } = &ents[0] {
        assert_eq!(url, "https://example.com");
    } else {
        panic!("expected text url");
    }
}

#[test]
fn html_entities_decoded() {
    let (text, _) = parse_html("A &amp; B &lt;3&gt;");
    assert_eq!(text, "A & B <3>");
}

#[test]
fn generate_html_roundtrip() {
    let original = "Hello world";
    let entities = vec![MessageEntity::Bold(span(0, 5))];
    let html = generate_html(original, &entities);
    assert_eq!(html, "<b>Hello</b> world");
    let (back, ents2) = parse_html(&html);
    assert_eq!(back, original);
    assert_eq!(ents2.len(), 1);
}

#[test]
fn markdown_marks() {
    let (text, ents) = parse_markdown("a __b__ ~~c~~ ||d|| e");
    assert_eq!(text, "a b c d e");
    assert_eq!(
        ents,
        vec![
            MessageEntity::Italic(span(2, 1)),
            MessageEntity::Strike(span(4, 1)),
            MessageEntity::Spoiler(span(6, 1)),
        ]
    );
}

#[test]
fn markdown_nested_marks_end_inner_first() {
    let (text, ents) = parse_markdown("**a __b__ c**");
    assert_eq!(text, "a b c");
    assert_eq!(ents, vec![MessageEntity::Italic(span(2, 1)), MessageEntity::Bold(span(0, 5))]);
}

#[test]
fn markdown_open_mark_formats_nothing() {
    let (text, ents) = parse_markdown("**never closed");
    assert_eq!(text, "never closed");
    assert!(ents.is_empty());
    let (text, ents) = parse_markdown("****");
    assert_eq!(text, "");
    assert!(ents.is_empty());
}

#[test]
fn markdown_code_block() {
    let (text, ents) = parse_markdown("x ```rust\nfn main() {}\n``` y");
    assert_eq!(text, "x fn main() {}\n y");
    assert_eq!(
        ents,
        vec![MessageEntity::Pre { span: span(2, 13), language: "rust".to_owned() }]
    );
    let (text, ents) = parse_markdown("```plain```");
    assert_eq!(text, "plain");
    assert_eq!(ents, vec![MessageEntity::Pre { span: span(0, 5), language: String::new() }]);
}

#[test]
fn markdown_fence_without_an_end() {
    let (text, ents) = parse_markdown("```abc");
    assert_eq!(text, "`abc");
    assert_eq!(ents, vec![MessageEntity::Code(span(0, 0))]);
}

#[test]
fn markdown_links_and_mentions() {
    let (text, ents) = parse_markdown("see [the [docs]](https://example.com) now");
    assert_eq!(text, "see the [docs] now");
    assert_eq!(
        ents,
        vec![MessageEntity::TextUrl { span: span(4, 10), url: "https://example.com".to_owned() }]
    );
    let (text, ents) = parse_markdown("[Ann](tg://user?id=-42)");
    assert_eq!(text, "Ann");
    assert_eq!(ents, vec![MessageEntity::MentionName { span: span(0, 3), user_id: -42 }]);
    let (text, ents) = parse_markdown("[Ann](tg://user?id=x)");
    assert_eq!(text, "Ann");
    assert!(ents.is_empty());
    let (text, ents) = parse_markdown("[no link] here");
    assert_eq!(text, "[no link] here");
    assert!(ents.is_empty());
}

#[test]
fn markdown_counts_utf16_units() {
    let (text, ents) = parse_markdown("é😀 **x😀**");
    assert_eq!(text, "é😀 x😀");
    assert_eq!(ents, vec![MessageEntity::Bold(span(4, 3))]);
}

#[test]
fn markdown_written_out() {
    let ents = vec![
        MessageEntity::Bold(span(0, 5)),
        MessageEntity::Code(span(6, 5)),
        MessageEntity::Url(span(0, 11)),
    ];
    assert_eq!(generate_markdown("Hello world", &ents), "**Hello** `world`");
    let ents = vec![MessageEntity::Italic(span(1, 2)), MessageEntity::Spoiler(span(3, 1))];
    assert_eq!(generate_markdown("😀ab", &ents), "😀__a__||b||");
    let ents = vec![MessageEntity::Strike(span(2, 1))];
    assert_eq!(generate_markdown("abc", &ents), "ab~~c~~");
    assert_eq!(generate_markdown("", &ents), "~~~~");
}

#[test]
fn markdown_roundtrip() {
    let ents = vec![MessageEntity::Bold(span(6, 5))];
    let written = generate_markdown("Hello world!", &ents);
    assert_eq!(written, "Hello **world**!");
    assert_eq!(parse_markdown(&written), ("Hello world!".to_owned(), ents));
}

#[test]
fn html_tags() {
    let (text, ents) = parse_html(
        "<u>a</u><s>b</s><tg-spoiler>c</tg-spoiler><code>d</code><pre>e</pre><br/><x>f</x>",
    );
    assert_eq!(text, "abcde\nf");
    assert_eq!(
        ents,
        vec![
            MessageEntity::Underline(span(0, 1)),
            MessageEntity::Strike(span(1, 1)),
            MessageEntity::Spoiler(span(2, 1)),
            MessageEntity::Code(span(3, 1)),
            MessageEntity::Pre { span: span(4, 1), language: String::new() },
        ]
    );
}

#[test]
fn html_tags_close_by_their_short_name() {
    let (text, ents) = parse_html("<strong>a</strong> <strong>b</b> <em>c</i>");
    assert_eq!(text, "a b c");
    assert_eq!(ents, vec![MessageEntity::Bold(span(2, 1)), MessageEntity::Italic(span(4, 1))]);
}

#[test]
fn html_mentions_and_emoji() {
    let (text, ents) = parse_html(
        "<a href='tg://user?id=77'>Bob</a> <tg-emoji emoji-id=\"5\">x</tg-emoji> <tg-emoji>y</tg-emoji> <a>z</a>",
    );
    assert_eq!(text, "Bob x y z");
    assert_eq!(
        ents,
        vec![
            MessageEntity::MentionName { span: span(0, 3), user_id: 77 },
            MessageEntity::CustomEmoji { span: span(4, 1), document_id: 5 },
            MessageEntity::CustomEmoji { span: span(6, 1), document_id: 0 },
            MessageEntity::TextUrl { span: span(8, 1), url: String::new() },
        ]
    );
}

#[test]
fn html_empty_and_open_tags_format_nothing() {
    let (text, ents) = parse_html("<b></b>x<i>y");
    assert_eq!(text, "xy");
    assert!(ents.is_empty());
    let (text, ents) = parse_html("a<b");
    assert_eq!(text, "a");
    assert!(ents.is_empty());
}

#[test]
fn html_names_are_decoded_in_order() {
    assert_eq!(decode_html_entities(b"&amp;lt; &quot;x&quot; &#39;y&#39; a&nbsp;b"), "< \"x\" 'y' a\u{a0}b".as_bytes());
    assert_eq!(decode_html_entities(b"&amp"), b"&amp");
    assert_eq!(replace_all(b"aaa", "aa", "b"), b"ba");
    assert_eq!(replace_all(b"abc", "", "x"), b"abc");
}

#[test]
fn html_escape() {
    assert_eq!(escape_html(b"a<b>&\"c\"'"), b"a&lt;b&gt;&amp;&quot;c&quot;'");
}

#[test]
fn tag_names_and_attributes() {
    let (name, attrs) = parse_tag(b"a href=\"x y\" id='7' k=v  w");
    assert_eq!(name, b"a");
    assert_eq!(
        attrs,
        vec![
            (b"href".to_vec(), b"x y".to_vec()),
            (b"id".to_vec(), b"7".to_vec()),
            (b"k".to_vec(), b"v".to_vec()),
        ]
    );
    let (name, attrs) = parse_tag(b"br//");
    assert_eq!(name, b"br");
    assert!(attrs.is_empty());
    assert_eq!(parse_attrs(b"a=\"open"), vec![(b"a".to_vec(), b"ope".to_vec())]);
    assert_eq!(parse_attrs(b"a=\""), vec![(b"a".to_vec(), Vec::new())]);
    assert_eq!(parse_attrs(b"a="), vec![(b"a".to_vec(), Vec::new())]);
    assert_eq!(parse_attrs(b"lonely"), Vec::<(Vec<u8>, Vec<u8>)>::new());
}

#[test]
fn tag_names_for_closing() {
    assert_eq!(HtmlTag::Bold.name(), "b");
    assert_eq!(HtmlTag::Italic.name(), "i");
    assert_eq!(HtmlTag::Underline.name(), "u");
    assert_eq!(HtmlTag::Strike.name(), "s");
    assert_eq!(HtmlTag::Spoiler.name(), "tg-spoiler");
    assert_eq!(HtmlTag::Code.name(), "code");
    assert_eq!(HtmlTag::Pre.name(), "pre");
    assert_eq!(HtmlTag::Link(Vec::new()).name(), "a");
    assert_eq!(HtmlTag::CustomEmoji(1).name(), "tg-emoji");
    assert_eq!(HtmlTag::Unknown.name(), "");
}

#[test]
fn html_written_out() {
    let ents = vec![
        MessageEntity::Pre { span: span(0, 1), language: "rust".to_owned() },
        MessageEntity::Pre { span: span(2, 1), language: String::new() },
        MessageEntity::TextUrl { span: span(4, 1), url: "http://x/?a=1&b=\"2\"".to_owned() },
        MessageEntity::MentionName { span: span(6, 1), user_id: -9223372036854775808 },
        MessageEntity::CustomEmoji { span: span(8, 1), document_id: 9223372036854775807 },
        MessageEntity::Hashtag(span(0, 5)),
    ];
    assert_eq!(
        generate_html("a-<-c-&-e", &ents),
        "<pre><code class=\"language-rust\">a</code></pre>-<pre><code>&lt;</code></pre>-\
<a href=\"http://x/?a=1&amp;b=&quot;2&quot;\">c</a>-\
<a href=\"tg://user?id=-9223372036854775808\">&amp;</a>-\
<tg-emoji emoji-id=\"9223372036854775807\">e</tg-emoji>"
    );
}

#[test]
fn html_opening_tags_stand_before_closing_ones() {
    let ents = vec![MessageEntity::Bold(span(0, 2)), MessageEntity::Italic(span(2, 2))];
    assert_eq!(generate_html("abcd", &ents), "<b>ab<i></b>cd</i>");
    let ents = vec![MessageEntity::Bold(span(0, 4)), MessageEntity::Italic(span(1, 2))];
    assert_eq!(generate_html("abcd", &ents), "<b>a<i>bc</i>d</b>");
}

#[test]
fn numbers_with_a_sign() {
    assert_eq!(parse_i64(b"0"), Some(0));
    assert_eq!(parse_i64(b"+17"), Some(17));
    assert_eq!(parse_i64(b"-17"), Some(-17));
    assert_eq!(parse_i64(b"0009"), Some(9));
    assert_eq!(parse_i64(b"9223372036854775807"), Some(i64::MAX));
    assert_eq!(parse_i64(b"9223372036854775808"), None);
    assert_eq!(parse_i64(b"-9223372036854775808"), Some(i64::MIN));
    assert_eq!(parse_i64(b"-9223372036854775809"), None);
    assert_eq!(parse_i64(b"99999999999999999999999"), None);
    assert_eq!(parse_i64(b""), None);
    assert_eq!(parse_i64(b"-"), None);
    assert_eq!(parse_i64(b"+"), None);
    assert_eq!(parse_i64(b"1a"), None);
    assert_eq!(parse_i64(b" 1"), None);
}

#[test]
fn utf16_units_of_utf8() {
    let s = "aé€😀".as_bytes();
    assert_eq!(utf16_count(s, 0, s.len()), 5);
    assert_eq!(utf16_count(s, 0, 1), 1);
    assert_eq!(utf16_count(s, 1, 3), 1);
    assert_eq!(utf16_count(s, 3, 6), 1);
    assert_eq!(utf16_count(s, 6, 10), 2);
    assert_eq!(utf16_count(s, 4, 4), 0);
}

#[test]
fn html_tags_split_at_white_space_of_any_script() {
    let (text, ents) = parse_html("<a\u{a0}href=\"https://x.y\"\u{2003}>go</a>");
    assert_eq!(text, "go");
    assert_eq!(
        ents,
        vec![MessageEntity::TextUrl { span: span(0, 2), url: "https://x.y".to_owned() }]
    );
    let (name, attrs) = parse_tag("a\u{3000}k=v".as_bytes());
    assert_eq!(name, b"a");
    assert_eq!(attrs, vec![(b"k".to_vec(), b"v".to_vec())]);
}

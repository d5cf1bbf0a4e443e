use markup_fmt::ast::JinjaTag;
use markup_fmt::names::{
    bytes_eq, closes_jinja_block, closes_vento_block, contains, is_jinja_branch,
    is_raw_text_tag, is_vento_branch, is_vento_function, is_vento_interpolation,
    is_void_element, name_is, opens_jinja_block, opens_vento_block, parse_jinja_tag_name,
    parse_vento_tag, run_end_within, skip_white_space_within, starts_with, trim, white_space_len,
    white_space_len_before,
};
use markup_fmt::parser::Language;
use markup_fmt::scan::{
    is_ascii_alphanumeric, is_ascii_whitespace, is_attr_name_char, is_identifier_char,
    is_tag_name_char, is_unquoted_attr_value_char, same_byte, to_ascii_lowercase, CharClass,
};
use markup_fmt::span::Span;

fn whole(s: &str) -> Span {
    Span { start: 0, end: s.len() }
}

#[test]
fn character_classes() {
    for c in 0u8..=255 {
        let ch = c as char;
        let ws = matches!(c, b' ' | b'\t' | b'\n' | 0x0c | b'\r');
        assert_eq!(is_ascii_whitespace(c), ws, "{}", c);
        assert_eq!(is_ascii_whitespace(c), c.is_ascii_whitespace(), "{}", c);
        assert_eq!(is_ascii_alphanumeric(c), c.is_ascii_alphanumeric(), "{}", c);
        let tag = c.is_ascii_alphanumeric() || "-_.:\\".contains(ch) && c < 128 || c >= 128;
        assert_eq!(is_tag_name_char(c), tag, "{}", c);
        let attr = !ws && !matches!(c, b'"' | b'\'' | b'>' | b'/' | b'=');
        assert_eq!(is_attr_name_char(c), attr, "{}", c);
        let value = !ws && !matches!(c, b'"' | b'\'' | b'=' | b'<' | b'>' | b'`');
        assert_eq!(is_unquoted_attr_value_char(c), value, "{}", c);
        let ident = c.is_ascii_alphanumeric() || matches!(c, b'-' | b'_' | b'\\') || c >= 128;
        assert_eq!(is_identifier_char(c), ident, "{}", c);
        assert_eq!(to_ascii_lowercase(c), c.to_ascii_lowercase(), "{}", c);
        assert_eq!(CharClass::Whitespace.has(c), ws);
        assert_eq!(CharClass::NotWhitespace.has(c), !ws);
        assert_eq!(CharClass::TagName.has(c), tag);
        assert_eq!(CharClass::AttrName.has(c), attr);
        assert_eq!(CharClass::AttrValue.has(c), value);
        assert_eq!(CharClass::Identifier.has(c), ident);
        assert_eq!(CharClass::Sign.has(c), c == b'+' || c == b'-');
    }
}

#[test]
fn bytes_up_to_case() {
    assert!(same_byte(b'a', b'A', true));
    assert!(!same_byte(b'a', b'A', false));
    assert!(!same_byte(b'@', b'`', true));
    assert!(bytes_eq(b"Script", b"sCRIPT", true));
    assert!(!bytes_eq(b"Script", b"sCRIPT", false));
    assert!(!bytes_eq(b"script", b"scripts", true));
    assert!(bytes_eq(b"", b"", false));
    assert!(name_is(b"BR", "br", true));
    assert!(!name_is(b"BR", "br", false));
}

#[test]
fn prefix_and_membership() {
    assert!(starts_with(b"function f", b"function"));
    assert!(starts_with(b"function", b"function"));
    assert!(!starts_with(b"func", b"function"));
    assert!(starts_with(b"x", b""));
    assert!(contains(b"a=b", b'='));
    assert!(!contains(b"ab", b'='));
    assert!(!contains(b"", b'='));
}

#[test]
fn void_elements_by_dialect() {
    assert!(is_void_element(b"br", Language::Html));
    assert!(is_void_element(b"Br", Language::Html));
    assert!(is_void_element(b"INPUT", Language::Jinja));
    assert!(is_void_element(b"Meta", Language::Vento));
    assert!(is_void_element(b"link", Language::Astro));
    assert!(!is_void_element(b"Link", Language::Astro));
    assert!(!is_void_element(b"Link", Language::Vue));
    assert!(!is_void_element(b"Link", Language::Svelte));
    assert!(!is_void_element(b"div", Language::Html));
    assert!(!is_void_element(b"", Language::Html));
}

#[test]
fn raw_text_tags() {
    for name in ["script", "STYLE", "Pre", "textArea"] {
        assert!(is_raw_text_tag(name.as_bytes()), "{}", name);
    }
    assert!(!is_raw_text_tag(b"scripts"));
    assert!(!is_raw_text_tag(b"div"));
}

#[test]
fn run_end_stops_at_limit() {
    let src = b"   abc   ";
    assert_eq!(run_end_within(src, 0, 9, CharClass::Whitespace), 3);
    assert_eq!(run_end_within(src, 0, 2, CharClass::Whitespace), 2);
    assert_eq!(run_end_within(src, 3, 9, CharClass::NotWhitespace), 6);
    assert_eq!(run_end_within(src, 3, 5, CharClass::NotWhitespace), 5);
    assert_eq!(run_end_within(src, 3, 3, CharClass::NotWhitespace), 3);
}

#[test]
fn jinja_tag_names() {
    let cases = [
        (" if x ", "if"),
        ("- for x in y -", "for"),
        ("+endif", "endif"),
        ("-+- \t else", "else"),
        ("", ""),
        ("   ", ""),
        ("set\nx", "set"),
        ("\u{a0}if x", "if"),
        ("-\u{b}\u{2003}\u{3000} for x", "for"),
        ("\u{85}\u{1680}\u{2028}\u{205f}x\u{a0}y z", "x\u{a0}y"),
        ("\u{a0}", ""),
        ("\u{200b}if", "\u{200b}if"),
    ];
    for (content, name) in cases {
        let tag = JinjaTag { content: whole(content) };
        let span = parse_jinja_tag_name(content.as_bytes(), &tag);
        assert_eq!(&content[span.start..span.end], name, "{:?}", content);
    }
    let src = "{% if x %}";
    let tag = JinjaTag { content: Span { start: 2, end: 5 } };
    assert_eq!(parse_jinja_tag_name(src.as_bytes(), &tag), Span { start: 3, end: 5 });
}

#[test]
fn jinja_block_rules() {
    assert!(opens_jinja_block(b"if"));
    assert!(opens_jinja_block(b"autoescape"));
    assert!(!opens_jinja_block(b"If"));
    assert!(!opens_jinja_block(b"set"));
    assert!(closes_jinja_block(b"endif", b"if"));
    assert!(!closes_jinja_block(b"endfor", b"if"));
    assert!(!closes_jinja_block(b"end", b"if"));
    assert!(closes_jinja_block(b"end", b""));
    assert!(!closes_jinja_block(b"if", b"if"));
    assert!(is_jinja_branch(b"if", b"elif"));
    assert!(is_jinja_branch(b"if", b"elseif"));
    assert!(is_jinja_branch(b"for", b"else"));
    assert!(!is_jinja_branch(b"block", b"else"));
    assert!(!is_jinja_branch(b"if", b"endif"));
}

#[test]
fn vento_tag_parts() {
    let cases = [
        (" if flag ", "if", "flag"),
        ("for x of xs", "for", "x of xs"),
        ("  /if  ", "/if", ""),
        ("", "", ""),
        ("   ", "", ""),
        ("async  function f", "async", " function f"),
        ("x", "x", ""),
        ("\u{a0}if a\u{2003}", "if", "a"),
        ("\u{b} /if\u{a0} \u{3000}", "/if", ""),
        ("\u{b} /if\u{a0} x\u{3000}", "/if\u{a0}", "x"),
        ("\u{a0}", "", ""),
        ("a\u{a0}b c", "a\u{a0}b", "c"),
    ];
    for (tag, name, rest) in cases {
        let (n, r) = parse_vento_tag(tag.as_bytes(), whole(tag));
        assert_eq!(&tag[n.start..n.end], name, "{:?}", tag);
        assert_eq!(&tag[r.start..r.end], rest, "{:?}", tag);
    }
}

#[test]
fn vento_block_rules() {
    let opens = |tag: &str| opens_vento_block(tag.as_bytes(), whole(tag));
    assert!(opens(" for x of xs "));
    assert!(opens("if a"));
    assert!(opens("layout \"a.vto\""));
    assert!(opens("set x"));
    assert!(!opens("set x = 1"));
    assert!(opens("export x"));
    assert!(!opens("export x = 1"));
    assert!(opens("function f"));
    assert!(opens("async function f"));
    assert!(opens("export function f(a = 1)"));
    assert!(!opens("async  function f"));
    assert!(!opens("include x"));
    assert!(!opens("user.name"));

    assert!(is_vento_function(b"function", b""));
    assert!(is_vento_function(b"async", b"function f"));
    assert!(!is_vento_function(b"async", b"f"));
    assert!(!is_vento_function(b"set", b"function"));

    let closes = |open: &str, next: &str| {
        let src = format!("{}{}", open, next);
        closes_vento_block(
            src.as_bytes(),
            Span { start: 0, end: open.len() },
            Span { start: open.len(), end: src.len() },
        )
    };
    assert!(closes(" if a ", " /if "));
    assert!(closes("\u{a0}if a", "\u{2003}/if\u{a0} x"));
    assert!(closes(" if a ", " /if\u{b}"));
    assert!(!closes(" if a ", " /if\u{200b}"));
    assert!(!closes(" if a ", " /for "));
    assert!(!closes(" if a ", " if "));
    assert!(closes("async function f", "/function"));
    assert!(closes("function f", "/function"));
    assert!(!closes("for x of y", "/function"));

    let branch = |open: &str, next: &str| {
        let src = format!("{}{}", open, next);
        is_vento_branch(
            src.as_bytes(),
            Span { start: 0, end: open.len() },
            Span { start: open.len(), end: src.len() },
        )
    };
    assert!(branch("if a", " else "));
    assert!(!branch("for a of b", " else "));
    assert!(branch("if a", " else if b "));
    assert!(!branch("if a", " elseif b "));
}

#[test]
fn vento_interpolation_names() {
    for keyword in [
        "if", "else", "for", "set", "include", "layout", "async", "function", "import", "export",
    ] {
        assert!(!is_vento_interpolation(keyword.as_bytes()), "{}", keyword);
    }
    for other in ["", "user.name", "If", "/if", "x"] {
        assert!(is_vento_interpolation(other.as_bytes()), "{}", other);
    }
}

#[test]
fn white_space_is_the_unicode_property() {
    for c in (0u32..=0x10ffff).filter_map(char::from_u32) {
        let mut buf = [0u8; 4];
        let encoded = c.encode_utf8(&mut buf).as_bytes();
        let expected = if c.is_whitespace() { encoded.len() } else { 0 };
        assert_eq!(white_space_len(encoded, 0, encoded.len()), expected, "{:?}", c);
    }
}

#[test]
fn white_space_stays_before_the_limit() {
    let src = " \u{a0}\u{2003}x".as_bytes();
    assert_eq!(src.len(), 7);
    assert_eq!(white_space_len(src, 0, 7), 1);
    assert_eq!(white_space_len(src, 1, 7), 2);
    assert_eq!(white_space_len(src, 1, 2), 0);
    assert_eq!(white_space_len(src, 3, 7), 3);
    assert_eq!(white_space_len(src, 3, 5), 0);
    assert_eq!(white_space_len(src, 6, 7), 0);
    assert_eq!(white_space_len(src, 7, 7), 0);
    assert_eq!(skip_white_space_within(src, 0, 7), 6);
    assert_eq!(skip_white_space_within(src, 0, 5), 3);
    assert_eq!(skip_white_space_within(src, 0, 2), 1);
    assert_eq!(skip_white_space_within(src, 6, 7), 6);
}

#[test]
fn trim_is_the_trim_of_text() {
    let samples = [
        "",
        " ",
        "a",
        " a ",
        "\u{a0}a\u{a0}",
        "\u{b}\u{2003}a b\u{3000}\u{85}",
        "\u{1680}\u{2028}\u{2029}\u{202f}\u{205f}",
        "\u{200b} a \u{200b}",
        "\t\n\r\u{c}x\u{e9}\u{a0}y\u{2009}",
        "\u{e9}",
    ];
    for text in samples {
        let span = trim(text.as_bytes(), 0, text.len());
        assert_eq!(&text[span.start..span.end], text.trim(), "{:?}", text);
    }
    let src = "ab \u{a0}c\u{2003} d";
    assert_eq!(trim(src.as_bytes(), 2, 9), Span { start: 5, end: 6 });
    assert_eq!(trim(src.as_bytes(), 2, 5), Span { start: 5, end: 5 });
    assert_eq!(trim(src.as_bytes(), 6, 6), Span { start: 6, end: 6 });
}

#[test]
fn white_space_before_an_offset() {
    for c in (0u32..=0x10ffff).filter_map(char::from_u32) {
        let mut buf = [0u8; 5];
        buf[0] = b'x';
        let len = c.encode_utf8(&mut buf[1..]).len();
        let expected = if c.is_whitespace() { len } else { 0 };
        assert_eq!(white_space_len_before(&buf, 0, 1 + len), expected, "{:?}", c);
        assert_eq!(white_space_len_before(&buf, 1, 1 + len), expected, "{:?}", c);
        if len > 1 {
            assert_eq!(white_space_len_before(&buf, 2, 1 + len), 0, "{:?}", c);
        }
    }
}

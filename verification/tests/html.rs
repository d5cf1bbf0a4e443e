use markup_fmt::ast::{Attribute, Node, Root};
use markup_fmt::error::{SyntaxError, SyntaxErrorKind};
use markup_fmt::parser::{Language, Parser};
use markup_fmt::span::Span;

fn parse(source: &str, language: Language) -> Result<Root, SyntaxError> {
    Parser::new(source, language).parse_root()
}

fn text(source: &str, span: Span) -> &str {
    span.resolve(source)
}

fn only_element(root: &Root) -> &markup_fmt::ast::Element {
    assert_eq!(root.children.len(), 1);
    match &root.children[0] {
        Node::Element(e) => e,
        other => panic!("expected an element, got {:?}", other),
    }
}

#[test]
fn text_counts_line_breaks() {
    let src = "a\nb\n\nc";
    let root = parse(src, Language::Html).unwrap();
    assert_eq!(root.children.len(), 1);
    let Node::TextNode(t) = &root.children[0] else { panic!("expected text") };
    assert_eq!(text(src, t.raw), src);
    assert_eq!(t.line_breaks, 3);
}

#[test]
fn text_starting_with_line_feed() {
    let src = "\nx";
    let root = parse(src, Language::Html).unwrap();
    let Node::TextNode(t) = &root.children[0] else { panic!("expected text") };
    assert_eq!(t.line_breaks, 1);
    assert_eq!(t.raw, Span { start: 0, end: 2 });
}

#[test]
fn text_ends_before_tag_but_not_before_lone_angle() {
    let src = "1 < 2 <b>x</b>";
    let root = parse(src, Language::Html).unwrap();
    assert_eq!(root.children.len(), 2);
    let Node::TextNode(t) = &root.children[0] else { panic!("expected text") };
    assert_eq!(text(src, t.raw), "1 < 2 ");
    let Node::Element(b) = &root.children[1] else { panic!("expected an element") };
    assert_eq!(text(src, b.tag_name), "b");
}

#[test]
fn braces_are_text_in_html() {
    let src = "a {{ b }} {c}";
    let root = parse(src, Language::Html).unwrap();
    assert_eq!(root.children.len(), 1);
    let Node::TextNode(t) = &root.children[0] else { panic!("expected text") };
    assert_eq!(text(src, t.raw), src);
}

#[test]
fn stray_end_tag_at_top_level_is_split_text() {
    let src = "a</b>";
    let root = parse(src, Language::Html).unwrap();
    assert_eq!(root.children.len(), 2);
    let Node::TextNode(a) = &root.children[0] else { panic!("expected text") };
    assert_eq!(text(src, a.raw), "a");
    let Node::TextNode(b) = &root.children[1] else { panic!("expected text") };
    assert_eq!(text(src, b.raw), "</b>");
}

#[test]
fn comment_between_delimiters() {
    let src = "<!-- a - b -- c -->x";
    let root = parse(src, Language::Html).unwrap();
    assert_eq!(root.children.len(), 2);
    let Node::Comment(c) = &root.children[0] else { panic!("expected a comment") };
    assert_eq!(text(src, c.raw), " a - b -- c ");
}

#[test]
fn empty_comment() {
    let src = "<!---->";
    let root = parse(src, Language::Html).unwrap();
    let Node::Comment(c) = &root.children[0] else { panic!("expected a comment") };
    assert_eq!(c.raw, Span { start: 4, end: 4 });
}

#[test]
fn comment_without_end_runs_to_end_of_input() {
    let src = "<!-- open";
    let root = parse(src, Language::Html).unwrap();
    assert_eq!(root.children.len(), 1);
    let Node::Comment(c) = &root.children[0] else { panic!("expected a comment") };
    assert_eq!(text(src, c.raw), " open");
    assert_eq!(c.raw.end, src.len());
}

#[test]
fn doctype_in_any_case() {
    for src in ["<!DOCTYPE html>", "<!doctype html>", "<!DocType  HTML >", "<!doctypehtml>"] {
        let root = parse(src, Language::Html).unwrap();
        assert_eq!(root.children, vec![Node::Doctype], "{}", src);
    }
}

#[test]
fn broken_doctype_is_text() {
    let src = "<!doctype xml>";
    let root = parse(src, Language::Html).unwrap();
    assert_eq!(root.children.len(), 1);
    let Node::TextNode(t) = &root.children[0] else { panic!("expected text") };
    assert_eq!(text(src, t.raw), src);
}

#[test]
fn void_element_needs_no_end_tag() {
    let src = "<img src=a.png>after";
    let root = parse(src, Language::Html).unwrap();
    assert_eq!(root.children.len(), 2);
    let Node::Element(img) = &root.children[0] else { panic!("expected an element") };
    assert!(img.void_element);
    assert!(!img.self_closing);
    assert!(img.children.is_empty());
    let Attribute::NativeAttribute(a) = &img.attrs[0] else { panic!("expected native") };
    assert_eq!(text(src, a.name), "src");
    assert_eq!(a.value.map(|v| text(src, v)), Some("a.png"));
}

#[test]
fn void_names_fold_case_in_html_only() {
    let root = parse("<BR>", Language::Html).unwrap();
    assert!(only_element(&root).void_element);
    let err = parse("<BR>", Language::Vue).unwrap_err();
    assert_eq!(err, SyntaxError { kind: SyntaxErrorKind::ExpectCloseTag, pos: 4 });
    let root = parse("<br>", Language::Vue).unwrap();
    assert!(only_element(&root).void_element);
}

#[test]
fn every_void_element_name() {
    for name in [
        "area", "base", "br", "col", "embed", "hr", "img", "input", "link", "meta", "param",
        "source", "track", "wbr",
    ] {
        let src = format!("<{}>", name);
        let root = parse(&src, Language::Html).unwrap();
        assert!(only_element(&root).void_element, "{}", name);
    }
    assert_eq!(
        parse("<div>", Language::Html).unwrap_err().kind,
        SyntaxErrorKind::ExpectCloseTag
    );
}

#[test]
fn self_closing_non_void_element() {
    let src = "<div />";
    let root = parse(src, Language::Html).unwrap();
    let div = only_element(&root);
    assert!(div.self_closing);
    assert!(!div.void_element);
    assert!(div.children.is_empty());
}

#[test]
fn slash_without_angle_is_an_error() {
    let err = parse("<div / >", Language::Html).unwrap_err();
    assert_eq!(err, SyntaxError { kind: SyntaxErrorKind::ExpectSelfCloseTag, pos: 6 });
}

#[test]
fn first_attr_on_next_line() {
    let src = "<div\n  a=1\n  b>\n</div>";
    let root = parse(src, Language::Html).unwrap();
    let div = only_element(&root);
    assert!(!div.first_attr_same_line);
    assert_eq!(div.attrs.len(), 2);
    let src = "<div a=1\n  b></div>";
    let root = parse(src, Language::Html).unwrap();
    assert!(only_element(&root).first_attr_same_line);
}

#[test]
fn attribute_values_quoted_and_unquoted() {
    let src = "<a x='1 2' y=\"it's\" z=w v = q u></a>";
    let root = parse(src, Language::Html).unwrap();
    let a = only_element(&root);
    let got: Vec<(&str, Option<&str>)> = a
        .attrs
        .iter()
        .map(|attr| match attr {
            Attribute::NativeAttribute(n) => (text(src, n.name), n.value.map(|v| text(src, v))),
            other => panic!("expected native, got {:?}", other),
        })
        .collect();
    assert_eq!(
        got,
        vec![
            ("x", Some("1 2")),
            ("y", Some("it's")),
            ("z", Some("w")),
            ("v", Some("q")),
            ("u", None)
        ]
    );
}

#[test]
fn quoted_value_without_end_runs_to_end_of_input() {
    let src = "<a x=\"1>";
    let err = parse(src, Language::Html).unwrap_err();
    assert_eq!(err, SyntaxError { kind: SyntaxErrorKind::ExpectAttrName, pos: 8 });
}

#[test]
fn missing_attribute_value() {
    let err = parse("<a x=>", Language::Html).unwrap_err();
    assert_eq!(err, SyntaxError { kind: SyntaxErrorKind::ExpectAttrValue, pos: 5 });
}

#[test]
fn missing_attribute_name() {
    let err = parse("<a =1>", Language::Html).unwrap_err();
    assert_eq!(err, SyntaxError { kind: SyntaxErrorKind::ExpectAttrName, pos: 3 });
}

#[test]
fn end_tag_matches_up_to_case_and_allows_whitespace() {
    let src = "<Div>x</dIV  >";
    let root = parse(src, Language::Html).unwrap();
    let div = only_element(&root);
    assert_eq!(text(src, div.tag_name), "Div");
    assert_eq!(div.children.len(), 1);
}

#[test]
fn wrong_end_tag() {
    let err = parse("<a>x</b>", Language::Html).unwrap_err();
    assert_eq!(err, SyntaxError { kind: SyntaxErrorKind::ExpectCloseTag, pos: 5 });
}

#[test]
fn end_tag_without_name() {
    let err = parse("<a></ >", Language::Html).unwrap_err();
    assert_eq!(err, SyntaxError { kind: SyntaxErrorKind::ExpectTagName, pos: 5 });
}

#[test]
fn end_tag_without_closing_angle() {
    let err = parse("<a></a x>", Language::Html).unwrap_err();
    assert_eq!(err, SyntaxError { kind: SyntaxErrorKind::ExpectCloseTag, pos: 7 });
}

#[test]
fn unclosed_element() {
    let err = parse("<a><b></b>", Language::Html).unwrap_err();
    assert_eq!(err, SyntaxError { kind: SyntaxErrorKind::ExpectCloseTag, pos: 10 });
}

#[test]
fn nested_elements() {
    let src = "<ul><li>1</li><li>2</li></ul>";
    let root = parse(src, Language::Html).unwrap();
    let ul = only_element(&root);
    assert_eq!(ul.children.len(), 2);
    for (child, content) in ul.children.iter().zip(["1", "2"]) {
        let Node::Element(li) = child else { panic!("expected an element") };
        assert_eq!(text(src, li.tag_name), "li");
        let Node::TextNode(t) = &li.children[0] else { panic!("expected text") };
        assert_eq!(text(src, t.raw), content);
    }
}

#[test]
fn raw_text_elements_keep_markup_as_text() {
    for tag in ["script", "style", "pre", "textarea", "SCRIPT"] {
        let src = format!("<{0}>a <b> {{x}}\n</i></{0}>", tag);
        let root = parse(&src, Language::Html).unwrap();
        let e = only_element(&root);
        assert_eq!(e.children.len(), 1, "{}", tag);
        let Node::TextNode(t) = &e.children[0] else { panic!("expected text") };
        assert_eq!(text(&src, t.raw), "a <b> {x}\n</i>");
        assert_eq!(t.line_breaks, 1);
    }
}

#[test]
fn empty_raw_text_is_left_out() {
    let root = parse("<script></script>", Language::Html).unwrap();
    assert!(only_element(&root).children.is_empty());
}

#[test]
fn raw_text_ends_at_end_tag_prefix_at_end_of_input() {
    let err = parse("<style>a</sty", Language::Html).unwrap_err();
    assert_eq!(err, SyntaxError { kind: SyntaxErrorKind::ExpectCloseTag, pos: 9 });
}

#[test]
fn tag_names_may_hold_non_ascii_and_punctuation() {
    let src = "<x-é.b:c_d>t</x-é.b:c_d>";
    let root = parse(src, Language::Html).unwrap();
    let e = only_element(&root);
    assert_eq!(text(src, e.tag_name), "x-é.b:c_d");
}

#[test]
fn attribute_names_may_hold_non_ascii() {
    let src = "<a é=ü></a>";
    let root = parse(src, Language::Html).unwrap();
    let Attribute::NativeAttribute(n) = &only_element(&root).attrs[0] else {
        panic!("expected native")
    };
    assert_eq!(text(src, n.name), "é");
    assert_eq!(n.value.map(|v| text(src, v)), Some("ü"));
}

#[test]
fn at_tag_is_read_in_every_dialect() {
    let src = "{@html x}";
    let root = parse(src, Language::Html).unwrap();
    let Node::SvelteAtTag(t) = &root.children[0] else { panic!("expected an at tag") };
    assert_eq!(text(src, t.name), "html");
    assert_eq!(text(src, t.expr), "x");
}

#[test]
fn slice_resolves_a_span() {
    let src = "hello world";
    let span = Span::new(6, 11);
    assert_eq!(span.slice(src.as_bytes()), b"world");
    assert_eq!(span.len(), 5);
    assert!(!span.is_empty());
    assert!(Span::new(3, 3).is_empty());
    assert_eq!(Span::new(3, 3).slice(src.as_bytes()), b"");
}

#[test]
fn resolve_gives_the_text_of_a_span() {
    let src = "h\u{e9}llo w\u{f6}rld";
    assert_eq!(Span::new(0, 6).resolve(src), "h\u{e9}llo");
    assert_eq!(Span::new(7, 13).resolve(src), "w\u{f6}rld");
    assert_eq!(Span::new(3, 3).resolve(src), "");
    assert_eq!(Span::new(0, 0).resolve(src), "");
    assert_eq!(Span::new(13, 13).resolve(src), "");
    assert_eq!(Span::new(0, 13).resolve(src), src);
}

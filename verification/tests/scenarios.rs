use markup_fmt::ast::{
    AstroExprChild, Attribute, Element, JinjaTagOrChildren, NativeAttribute, Node, Root,
    TextNode, VentoTagOrChildren,
};
use markup_fmt::error::{SyntaxError, SyntaxErrorKind};
use markup_fmt::parser::{Language, Parser};
use markup_fmt::span::Span;

fn parse(source: &str, language: Language) -> Result<Root, SyntaxError> {
    Parser::new(source, language).parse_root()
}

fn text(source: &str, span: Span) -> &str {
    span.resolve(source)
}

#[test]
fn html_element_with_attribute_text_and_self_closing_child() {
    let src = "<div id=\"x\">hi<br/></div>";
    let root = parse(src, Language::Html).unwrap();
    assert_eq!(root.children.len(), 1);
    let Node::Element(div) = &root.children[0] else { panic!("expected an element") };
    assert_eq!(text(src, div.tag_name), "div");
    assert!(!div.self_closing);
    assert!(!div.void_element);
    assert!(div.first_attr_same_line);
    assert_eq!(div.attrs.len(), 1);
    let Attribute::NativeAttribute(id) = &div.attrs[0] else { panic!("expected a native attribute") };
    assert_eq!(text(src, id.name), "id");
    assert_eq!(id.value.map(|v| text(src, v)), Some("x"));
    assert_eq!(div.children.len(), 2);
    let Node::TextNode(hi) = &div.children[0] else { panic!("expected text") };
    assert_eq!(text(src, hi.raw), "hi");
    assert_eq!(hi.line_breaks, 0);
    let Node::Element(br) = &div.children[1] else { panic!("expected an element") };
    assert_eq!(text(src, br.tag_name), "br");
    assert!(br.self_closing);
    assert!(br.void_element);
    assert!(br.children.is_empty());
    assert!(br.attrs.is_empty());
}

#[test]
fn vue_directives_and_interpolation() {
    let src = "<p :class=\"c\" v-if=\"ok\">{{ name }}</p>";
    let root = parse(src, Language::Vue).unwrap();
    assert_eq!(root.children.len(), 1);
    let Node::Element(p) = &root.children[0] else { panic!("expected an element") };
    assert_eq!(text(src, p.tag_name), "p");
    assert_eq!(p.attrs.len(), 2);
    let Attribute::VueDirective(class) = &p.attrs[0] else { panic!("expected a directive") };
    assert_eq!(text(src, class.name), ":");
    assert_eq!(class.arg_and_modifiers.map(|v| text(src, v)), Some("class"));
    assert_eq!(class.value.map(|v| text(src, v)), Some("c"));
    let Attribute::VueDirective(cond) = &p.attrs[1] else { panic!("expected a directive") };
    assert_eq!(text(src, cond.name), "v-if");
    assert_eq!(cond.arg_and_modifiers, None);
    assert_eq!(cond.value.map(|v| text(src, v)), Some("ok"));
    assert_eq!(p.children.len(), 1);
    let Node::VueInterpolation(i) = &p.children[0] else { panic!("expected an interpolation") };
    assert_eq!(text(src, i.expr), " name ");
}

#[test]
fn svelte_if_block_with_else() {
    let src = "{#if a > 0}<b>{a}</b>{:else}none{/if}";
    let root = parse(src, Language::Svelte).unwrap();
    assert_eq!(root.children.len(), 1);
    let Node::SvelteIfBlock(block) = &root.children[0] else { panic!("expected an if block") };
    assert_eq!(text(src, block.expr), "a > 0");
    assert_eq!(block.children.len(), 1);
    let Node::Element(b) = &block.children[0] else { panic!("expected an element") };
    assert_eq!(text(src, b.tag_name), "b");
    assert_eq!(b.children.len(), 1);
    let Node::SvelteInterpolation(a) = &b.children[0] else { panic!("expected an interpolation") };
    assert_eq!(text(src, a.expr), "a");
    assert!(block.else_if_blocks.is_empty());
    let else_children = block.else_children.as_ref().expect("else children");
    assert_eq!(else_children.len(), 1);
    let Node::TextNode(none) = &else_children[0] else { panic!("expected text") };
    assert_eq!(text(src, none.raw), "none");
}

#[test]
fn astro_front_matter_then_markup() {
    let src = "---\nconst n=1;\n---\n<p>{n}</p>";
    let root = parse(src, Language::Astro).unwrap();
    assert_eq!(root.children.len(), 3);
    let Node::AstroFrontMatter(fm) = &root.children[0] else { panic!("expected front matter") };
    assert_eq!(text(src, fm.raw), "\nconst n=1;\n");
    let Node::TextNode(nl) = &root.children[1] else { panic!("expected text") };
    assert_eq!(text(src, nl.raw), "\n");
    assert_eq!(nl.line_breaks, 1);
    let Node::Element(p) = &root.children[2] else { panic!("expected an element") };
    assert_eq!(text(src, p.tag_name), "p");
    assert_eq!(p.children.len(), 1);
    let Node::AstroExpr(expr) = &p.children[0] else { panic!("expected an expression") };
    assert_eq!(expr.children.len(), 1);
    let AstroExprChild::Script(n) = &expr.children[0] else { panic!("expected script") };
    assert_eq!(text(src, *n), "n");
}

#[test]
fn jinja_if_elif_else_block() {
    let src = "{% if x %}a{% elif y %}b{% else %}c{% endif %}";
    let root = parse(src, Language::Jinja).unwrap();
    assert_eq!(root.children.len(), 1);
    let Node::JinjaBlock(block) = &root.children[0] else { panic!("expected a block") };
    assert_eq!(block.body.len(), 7);
    let tags = [(0, " if x "), (2, " elif y "), (4, " else "), (6, " endif ")];
    for (i, content) in tags {
        let JinjaTagOrChildren::Tag(tag) = &block.body[i] else { panic!("expected a tag") };
        assert_eq!(text(src, tag.content), content);
    }
    let runs = [(1, "a"), (3, "b"), (5, "c")];
    for (i, content) in runs {
        let JinjaTagOrChildren::Children(nodes) = &block.body[i] else {
            panic!("expected children")
        };
        assert_eq!(nodes.len(), 1);
        let Node::TextNode(t) = &nodes[0] else { panic!("expected text") };
        assert_eq!(text(src, t.raw), content);
    }
}

#[test]
fn vento_if_block() {
    let src = "{{ if flag }}X{{ /if }}";
    let root = parse(src, Language::Vento).unwrap();
    assert_eq!(root.children.len(), 1);
    let Node::VentoBlock(block) = &root.children[0] else { panic!("expected a block") };
    assert_eq!(block.body.len(), 3);
    let VentoTagOrChildren::Tag(open) = &block.body[0] else { panic!("expected a tag") };
    assert_eq!(text(src, open.tag), " if flag ");
    let VentoTagOrChildren::Children(nodes) = &block.body[1] else { panic!("expected children") };
    assert_eq!(nodes.len(), 1);
    let Node::TextNode(x) = &nodes[0] else { panic!("expected text") };
    assert_eq!(text(src, x.raw), "X");
    let VentoTagOrChildren::Tag(close) = &block.body[2] else { panic!("expected a tag") };
    assert_eq!(text(src, close.tag), " /if ");
}

#[test]
fn empty_input_gives_empty_root() {
    for language in [
        Language::Html,
        Language::Vue,
        Language::Svelte,
        Language::Astro,
        Language::Jinja,
        Language::Vento,
    ] {
        assert_eq!(parse("", language), Ok(Root { children: vec![] }));
    }
}

#[test]
fn whole_tree_by_offsets() {
    let src = "<a b>x\ny</a>";
    let expected = Root {
        children: vec![Node::Element(Element {
            tag_name: Span { start: 1, end: 2 },
            attrs: vec![Attribute::NativeAttribute(NativeAttribute {
                name: Span { start: 3, end: 4 },
                value: None,
            })],
            first_attr_same_line: true,
            children: vec![Node::TextNode(TextNode {
                raw: Span { start: 5, end: 8 },
                line_breaks: 1,
            })],
            self_closing: false,
            void_element: false,
        })],
    };
    assert_eq!(parse(src, Language::Html), Ok(expected));
}

#[test]
fn error_is_kind_and_byte_offset() {
    let err = parse("<div>", Language::Html).unwrap_err();
    assert_eq!(err, SyntaxError { kind: SyntaxErrorKind::ExpectCloseTag, pos: 5 });
}

#[test]
fn try_new_takes_an_ordinary_source() {
    let mut parser = Parser::try_new("<p>x</p>", Language::Html).expect("a short source");
    let root = parser.parse_root().unwrap();
    assert_eq!(root.children.len(), 1);
    assert_eq!(parse("<p>x</p>", Language::Html), Ok(root));
}

use markup_fmt::ast::{
    AstroExprChild, Attribute, Element, JinjaTagOrChildren, Node, Root, TextNode,
    VentoTagOrChildren,
};
use markup_fmt::error::SyntaxError;
use markup_fmt::parser::{Language, Parser};
use markup_fmt::span::Span;

fn parse(source: &str, language: Language) -> Result<Root, SyntaxError> {
    Parser::new(source, language).parse_root()
}

/// What a walk over a tree has seen.
struct Seen<'a> {
    spans: Vec<Span>,
    texts: Vec<&'a TextNode>,
    elements: Vec<&'a Element>,
    astro: Vec<&'a Vec<AstroExprChild>>,
}

fn walk_all<'a>(nodes: &'a [Node], seen: &mut Seen<'a>) {
    for node in nodes {
        walk(node, seen);
    }
}

fn walk<'a>(node: &'a Node, seen: &mut Seen<'a>) {
    match node {
        Node::TextNode(t) => {
            seen.spans.push(t.raw);
            seen.texts.push(t);
        }
        Node::Element(e) => {
            seen.elements.push(e);
            seen.spans.push(e.tag_name);
            for attr in &e.attrs {
                match attr {
                    Attribute::NativeAttribute(a) => {
                        seen.spans.push(a.name);
                        seen.spans.extend(a.value);
                    }
                    Attribute::VueDirective(a) => {
                        seen.spans.push(a.name);
                        seen.spans.extend(a.arg_and_modifiers);
                        seen.spans.extend(a.value);
                    }
                    Attribute::SvelteAttribute(a) => {
                        seen.spans.extend(a.name);
                        seen.spans.push(a.expr);
                    }
                    Attribute::AstroAttribute(a) => {
                        seen.spans.extend(a.name);
                        seen.spans.push(a.expr);
                    }
                }
            }
            walk_all(&e.children, seen);
        }
        Node::Comment(c) => seen.spans.push(c.raw),
        Node::Doctype => {}
        Node::VueInterpolation(i) => seen.spans.push(i.expr),
        Node::SvelteInterpolation(i) => seen.spans.push(i.expr),
        Node::SvelteIfBlock(b) => {
            seen.spans.push(b.expr);
            walk_all(&b.children, seen);
            for e in &b.else_if_blocks {
                seen.spans.push(e.expr);
                walk_all(&e.children, seen);
            }
            if let Some(c) = &b.else_children {
                walk_all(c, seen);
            }
        }
        Node::SvelteEachBlock(b) => {
            seen.spans.push(b.expr);
            seen.spans.push(b.binding);
            seen.spans.extend(b.index);
            seen.spans.extend(b.key);
            walk_all(&b.children, seen);
            if let Some(c) = &b.else_children {
                walk_all(c, seen);
            }
        }
        Node::SvelteAwaitBlock(b) => {
            seen.spans.push(b.expr);
            seen.spans.extend(b.then_binding);
            seen.spans.extend(b.catch_binding);
            walk_all(&b.children, seen);
            if let Some(t) = &b.then_block {
                seen.spans.push(t.binding);
                walk_all(&t.children, seen);
            }
            if let Some(c) = &b.catch_block {
                seen.spans.extend(c.binding);
                walk_all(&c.children, seen);
            }
        }
        Node::SvelteKeyBlock(b) => {
            seen.spans.push(b.expr);
            walk_all(&b.children, seen);
        }
        Node::SvelteAtTag(t) => {
            seen.spans.push(t.name);
            seen.spans.push(t.expr);
        }
        Node::AstroExpr(e) => {
            seen.astro.push(&e.children);
            for child in &e.children {
                match child {
                    AstroExprChild::Script(s) => seen.spans.push(*s),
                    AstroExprChild::Template(nodes) => walk_all(nodes, seen),
                }
            }
        }
        Node::AstroFrontMatter(f) => seen.spans.push(f.raw),
        Node::JinjaInterpolation(i) => seen.spans.push(i.expr),
        Node::JinjaTag(t) => seen.spans.push(t.content),
        Node::JinjaBlock(b) => {
            assert!(b.body.len() >= 2);
            assert!(matches!(b.body.first(), Some(JinjaTagOrChildren::Tag(_))));
            assert!(matches!(b.body.last(), Some(JinjaTagOrChildren::Tag(_))));
            for part in &b.body {
                match part {
                    JinjaTagOrChildren::Tag(t) => seen.spans.push(t.content),
                    JinjaTagOrChildren::Children(nodes) => walk_all(nodes, seen),
                }
            }
        }
        Node::JinjaComment(c) => seen.spans.push(c.raw),
        Node::VentoInterpolation(i) => seen.spans.push(i.expr),
        Node::VentoTag(t) => seen.spans.push(t.tag),
        Node::VentoBlock(b) => {
            assert!(b.body.len() >= 2);
            assert!(matches!(b.body.first(), Some(VentoTagOrChildren::Tag(_))));
            assert!(matches!(b.body.last(), Some(VentoTagOrChildren::Tag(_))));
            for part in &b.body {
                match part {
                    VentoTagOrChildren::Tag(t) => seen.spans.push(t.tag),
                    VentoTagOrChildren::Children(nodes) => walk_all(nodes, seen),
                }
            }
        }
        Node::VentoComment(c) => seen.spans.push(c.raw),
        Node::VentoEval(e) => seen.spans.push(e.raw),
    }
}

fn samples() -> Vec<(Language, &'static str)> {
    vec![
        (Language::Html, "<!DOCTYPE html>\n<html lang=en>\n<!-- é -->\n<body class=\"a b\">\n<p\n id=x>h\u{e9}llo<br/>w\u{f6}rld</p>\n<script>if (a < b) { x = \"</p>\"; }\n</script>\n<ÿ-tag>\u{1F600}</ÿ-tag></body>\n</html>\n"),
        (Language::Vue, "<template>\n<li v-for=\"i in xs\" :key=\"i.id\" @click=\"f(i)\">{{ i.n\u{e4}me }}\n</li>\n<!-- c -->\n</template>\n"),
        (Language::Svelte, "<script>let a;</script>\n{#if a}\n<p class={c}>{a}</p>\n{:else if b}\n{#each xs as x, i (x.id)}{x}\u{20AC}{:else}\nnone{/each}\n{:else}\n{#await p then v}{v}{:catch e}{@html e}{/await}{#key k}\n{/key}\n{/if}\n"),
        (Language::Astro, "---\nconst xs = [`a${'}'}`, \"---\"]; // ---\n/* --- */\n---\n<ul>\n{xs.map(x => (\n  <li {...x} a={x}>{x}\n</li>\n  <hr/>\n))}\n</ul>\n<>f\u{e9}</>\n"),
        (Language::Jinja, "{# c #}\n{% extends 'a' %}\n{% block b %}\n{% for x in xs -%}\n<li>{{ x }}</li>\n{%- else %}\n\u{e9}\n{% endfor %}\n{% endblock %}\n"),
        (Language::Vento, "{{# c #}}\n{{ layout \"l.vto\" }}\n{{ for x of xs }}\n{{ if x }}<b>{{ x }}</b>{{ else }}\u{e9}\n{{ /if }}\n{{ /for }}\n{{> 1 }}\n{{ /layout }}\n"),
    ]
}

fn seen_in(root: &Root) -> Seen<'_> {
    let mut seen = Seen { spans: vec![], texts: vec![], elements: vec![], astro: vec![] };
    walk_all(&root.children, &mut seen);
    seen
}

#[test]
fn every_span_is_a_piece_of_the_source() {
    for (language, src) in samples() {
        let root = parse(src, language).unwrap();
        let seen = seen_in(&root);
        assert!(!seen.spans.is_empty());
        for span in &seen.spans {
            assert!(span.start <= span.end && span.end <= src.len(), "{:?}", span);
            assert!(src.get(span.start..span.end).is_some(), "{:?}", span);
            assert_eq!(span.resolve(src), &src[span.start..span.end]);
            assert_eq!(span.slice(src.as_bytes()), &src.as_bytes()[span.start..span.end]);
        }
    }
}

#[test]
fn text_nodes_count_their_line_feeds() {
    let mut total = 0;
    for (language, src) in samples() {
        let root = parse(src, language).unwrap();
        let seen = seen_in(&root);
        for t in &seen.texts {
            let raw = &src[t.raw.start..t.raw.end];
            assert_eq!(t.line_breaks as usize, raw.matches('\n').count(), "{:?}", raw);
            total += t.line_breaks;
        }
    }
    assert!(total > 20);
}

#[test]
fn elements_are_balanced() {
    for (language, src) in samples() {
        let root = parse(src, language).unwrap();
        let seen = seen_in(&root);
        assert!(!seen.elements.is_empty());
        for e in &seen.elements {
            if e.void_element || e.self_closing {
                assert!(e.children.is_empty());
            } else {
                let name = &src[e.tag_name.start..e.tag_name.end];
                let end_tag = format!("</{}", name.to_ascii_lowercase());
                let rest = src[e.tag_name.end..].to_ascii_lowercase();
                assert!(rest.contains(&end_tag), "{}", name);
            }
        }
    }
}

#[test]
fn astro_parts_alternate() {
    let (language, src) = samples().remove(3);
    let root = parse(src, language).unwrap();
    let seen = seen_in(&root);
    assert!(!seen.astro.is_empty());
    for parts in &seen.astro {
        for pair in parts.windows(2) {
            assert_ne!(
                matches!(pair[0], AstroExprChild::Script(_)),
                matches!(pair[1], AstroExprChild::Script(_))
            );
        }
    }
}

#[test]
fn delimited_text_round_trips() {
    let src = "a<!-- c -->b";
    let root = parse(src, Language::Html).unwrap();
    let Node::Comment(c) = &root.children[1] else { panic!("expected a comment") };
    let raw = &src[c.raw.start..c.raw.end];
    assert_eq!(format!("<!--{}-->", raw), &src[c.raw.start - 4..c.raw.end + 3]);

    let src = "{% if a %}{{ b }}{# c #}{% endif %}";
    let root = parse(src, Language::Jinja).unwrap();
    let Node::JinjaBlock(block) = &root.children[0] else { panic!("expected a block") };
    let JinjaTagOrChildren::Tag(open) = &block.body[0] else { panic!("expected a tag") };
    let content = &src[open.content.start..open.content.end];
    assert_eq!(format!("{{%{}%}}", content), &src[open.content.start - 2..open.content.end + 2]);
    let JinjaTagOrChildren::Children(nodes) = &block.body[1] else { panic!("expected children") };
    let Node::JinjaInterpolation(i) = &nodes[0] else { panic!("expected an interpolation") };
    let expr = &src[i.expr.start..i.expr.end];
    assert_eq!(format!("{{{{{}}}}}", expr), &src[i.expr.start - 2..i.expr.end + 2]);
    let Node::JinjaComment(c) = &nodes[1] else { panic!("expected a comment") };
    let raw = &src[c.raw.start..c.raw.end];
    assert_eq!(format!("{{#{}#}}", raw), &src[c.raw.start - 2..c.raw.end + 2]);
}

#[test]
fn top_level_text_and_leaves_tile_the_source() {
    let src = "a<!--b-->c{{ d }}e{# f #}g";
    let root = parse(src, Language::Jinja).unwrap();
    let mut rebuilt = String::new();
    for node in &root.children {
        match node {
            Node::TextNode(t) => rebuilt.push_str(&src[t.raw.start..t.raw.end]),
            Node::Comment(c) => {
                rebuilt.push_str("<!--");
                rebuilt.push_str(&src[c.raw.start..c.raw.end]);
                rebuilt.push_str("-->");
            }
            Node::JinjaInterpolation(i) => {
                rebuilt.push_str("{{");
                rebuilt.push_str(&src[i.expr.start..i.expr.end]);
                rebuilt.push_str("}}");
            }
            Node::JinjaComment(c) => {
                rebuilt.push_str("{#");
                rebuilt.push_str(&src[c.raw.start..c.raw.end]);
                rebuilt.push_str("#}");
            }
            other => panic!("unexpected {:?}", other),
        }
    }
    assert_eq!(rebuilt, src);
}

#[test]
fn one_construct_starts_at_every_position() {
    let starts: [(Language, &str, &str); 22] = [
        (Language::Html, "<a/>", "Element"),
        (Language::Html, "<!-- -->", "Comment"),
        (Language::Html, "<!doctype html>", "Doctype"),
        (Language::Html, "<!x", "TextNode"),
        (Language::Html, "< a", "TextNode"),
        (Language::Html, "{{ a }}", "TextNode"),
        (Language::Html, "{@a b}", "SvelteAtTag"),
        (Language::Html, "---", "TextNode"),
        (Language::Vue, "{{ a }}", "VueInterpolation"),
        (Language::Vue, "<!-- -->", "Comment"),
        (Language::Svelte, "{a}", "SvelteInterpolation"),
        (Language::Svelte, "{#key a}{/key}", "SvelteKeyBlock"),
        (Language::Svelte, "{@a b}", "SvelteAtTag"),
        (Language::Astro, "{a}", "AstroExpr"),
        (Language::Astro, "<></>", "Element"),
        (Language::Astro, "---\n---", "AstroFrontMatter"),
        (Language::Astro, "--", "TextNode"),
        (Language::Jinja, "{{ a }}", "JinjaInterpolation"),
        (Language::Jinja, "{# a #}", "JinjaComment"),
        (Language::Jinja, "{% a %}", "JinjaTag"),
        (Language::Vento, "{{ a }}", "VentoInterpolation"),
        (Language::Vento, "{ a }", "TextNode"),
    ];
    for (language, src, kind) in starts {
        let root = parse(src, language).unwrap();
        assert_eq!(root.children.len(), 1, "{:?} {}", language, src);
        let debug = format!("{:?}", root.children[0]);
        assert!(debug.starts_with(kind), "{:?} {}: {}", language, src, debug);
    }
}

#[test]
fn parsing_ends_at_the_end_of_the_source_or_fails() {
    let pieces = ["<a>", "</a>", "{", "}", "{{", "}}", "{%", "%}", "{#if x}", "{/if}", "-", "<!", "x", " ", "\n", "\u{e9}"];
    for language in [
        Language::Html,
        Language::Vue,
        Language::Svelte,
        Language::Astro,
        Language::Jinja,
        Language::Vento,
    ] {
        for a in pieces {
            for b in pieces {
                for c in pieces {
                    let src = format!("{}{}{}", a, b, c);
                    match parse(&src, language) {
                        Ok(root) => {
                            let seen = seen_in(&root);
                            for span in &seen.spans {
                                assert!(span.start <= span.end && span.end <= src.len());
                                assert!(src.get(span.start..span.end).is_some());
                            }
                            for t in &seen.texts {
                                let raw = &src[t.raw.start..t.raw.end];
                                assert_eq!(t.line_breaks as usize, raw.matches('\n').count());
                            }
                        }
                        Err(e) => assert!(e.pos <= src.len(), "{:?} {:?}", language, src),
                    }
                }
            }
        }
    }
}

use markup_fmt::ast::{
    AstroExprChild, Attribute, JinjaTagOrChildren, Node, Root, VentoTagOrChildren,
};
use markup_fmt::error::{SyntaxError, SyntaxErrorKind};
use markup_fmt::parser::{Language, Parser};
use markup_fmt::span::Span;

fn parse(source: &str, language: Language) -> Result<Root, SyntaxError> {
    Parser::new(source, language).parse_root()
}

fn text(source: &str, span: Span) -> &str {
    span.resolve(source)
}

fn element(node: &Node) -> &markup_fmt::ast::Element {
    match node {
        Node::Element(e) => e,
        other => panic!("expected an element, got {:?}", other),
    }
}

// ---- Vue ----

#[test]
fn vue_text_ends_before_double_brace_only() {
    let src = "a { b {{ c }} d";
    let root = parse(src, Language::Vue).unwrap();
    assert_eq!(root.children.len(), 3);
    let Node::TextNode(a) = &root.children[0] else { panic!("expected text") };
    assert_eq!(text(src, a.raw), "a { b ");
    let Node::VueInterpolation(c) = &root.children[1] else { panic!("expected interpolation") };
    assert_eq!(text(src, c.expr), " c ");
    let Node::TextNode(d) = &root.children[2] else { panic!("expected text") };
    assert_eq!(text(src, d.raw), " d");
}

#[test]
fn vue_text_may_start_with_a_single_brace() {
    let src = "{ a";
    let root = parse(src, Language::Vue).unwrap();
    assert_eq!(root.children.len(), 1);
    let Node::TextNode(t) = &root.children[0] else { panic!("expected text") };
    assert_eq!(text(src, t.raw), "{ a");
    assert_eq!(t.line_breaks, 0);

    let src = "{a} b";
    let root = parse(src, Language::Vue).unwrap();
    assert_eq!(root.children.len(), 1);
    let Node::TextNode(t) = &root.children[0] else { panic!("expected text") };
    assert_eq!(text(src, t.raw), "{a} b");
    assert_eq!(t.line_breaks, 0);

    let src = "{\n{{ x }}";
    let root = parse(src, Language::Vue).unwrap();
    assert_eq!(root.children.len(), 2);
    let Node::TextNode(t) = &root.children[0] else { panic!("expected text") };
    assert_eq!(text(src, t.raw), "{\n");
    assert_eq!(t.line_breaks, 1);
    assert!(matches!(root.children[1], Node::VueInterpolation(_)));
}

#[test]
fn svelte_text_may_not_start_with_brace() {
    let src = "a{b}";
    let root = parse(src, Language::Svelte).unwrap();
    assert_eq!(root.children.len(), 2);
    let Node::TextNode(t) = &root.children[0] else { panic!("expected text") };
    assert_eq!(text(src, t.raw), "a");
    assert!(matches!(root.children[1], Node::SvelteInterpolation(_)));
}

#[test]
fn vue_interpolation_without_end_runs_to_end_of_input() {
    let src = "{{ a }";
    let root = parse(src, Language::Vue).unwrap();
    let Node::VueInterpolation(i) = &root.children[0] else { panic!("expected interpolation") };
    assert_eq!(text(src, i.expr), " a }");
}

#[test]
fn vue_directive_forms() {
    let src = "<a @click.stop=\"f\" #slot v-on:x.y=z v-else v-bind plain=1></a>";
    let root = parse(src, Language::Vue).unwrap();
    let a = element(&root.children[0]);
    let got: Vec<(&str, Option<&str>, Option<&str>)> = a
        .attrs
        .iter()
        .map(|attr| match attr {
            Attribute::VueDirective(d) => (
                text(src, d.name),
                d.arg_and_modifiers.map(|v| text(src, v)),
                d.value.map(|v| text(src, v)),
            ),
            Attribute::NativeAttribute(n) => {
                ("native", Some(text(src, n.name)), n.value.map(|v| text(src, v)))
            }
            other => panic!("unexpected {:?}", other),
        })
        .collect();
    assert_eq!(
        got,
        vec![
            ("@", Some("click.stop"), Some("f")),
            ("#", Some("slot"), None),
            ("v-on", Some(":x.y"), Some("z")),
            ("v-else", None, None),
            ("v-bind", None, None),
            ("native", Some("plain"), Some("1")),
        ]
    );
}

#[test]
fn vue_comment_must_be_a_comment() {
    let err = parse("<!x", Language::Vue).unwrap_err();
    assert_eq!(err, SyntaxError { kind: SyntaxErrorKind::ExpectComment, pos: 2 });
}

// ---- Svelte ----

#[test]
fn svelte_interpolation_skips_leading_whitespace_and_balances_braces() {
    let src = "{  {a: {b: 1}}.a }";
    let root = parse(src, Language::Svelte).unwrap();
    assert_eq!(root.children.len(), 1);
    let Node::SvelteInterpolation(i) = &root.children[0] else { panic!("expected interpolation") };
    assert_eq!(text(src, i.expr), "{a: {b: 1}}.a ");
}

#[test]
fn svelte_attributes() {
    let src = "<a {x} y={z + 1} w = {v} u=\"{t}\"></a>";
    let root = parse(src, Language::Svelte).unwrap();
    let a = element(&root.children[0]);
    assert_eq!(a.attrs.len(), 4);
    let Attribute::SvelteAttribute(x) = &a.attrs[0] else { panic!("expected svelte attr") };
    assert_eq!(x.name, None);
    assert_eq!(text(src, x.expr), "x");
    let Attribute::SvelteAttribute(y) = &a.attrs[1] else { panic!("expected svelte attr") };
    assert_eq!(y.name.map(|n| text(src, n)), Some("y"));
    assert_eq!(text(src, y.expr), "z + 1");
    let Attribute::SvelteAttribute(w) = &a.attrs[2] else { panic!("expected svelte attr") };
    assert_eq!(w.name.map(|n| text(src, n)), Some("w"));
    assert_eq!(text(src, w.expr), "v");
    let Attribute::NativeAttribute(u) = &a.attrs[3] else { panic!("expected native attr") };
    assert_eq!(text(src, u.name), "u");
    assert_eq!(u.value.map(|n| text(src, n)), Some("{t}"));
}

#[test]
fn svelte_if_else_if_chain() {
    let src = "{#if a}1{:else if b}2{:else if c}3{:else}4{/if }";
    let root = parse(src, Language::Svelte).unwrap();
    let Node::SvelteIfBlock(block) = &root.children[0] else { panic!("expected an if block") };
    assert_eq!(text(src, block.expr), "a");
    assert_eq!(block.else_if_blocks.len(), 2);
    assert_eq!(text(src, block.else_if_blocks[0].expr), "b");
    assert_eq!(text(src, block.else_if_blocks[1].expr), "c");
    let Node::TextNode(t) = &block.else_if_blocks[1].children[0] else { panic!("expected text") };
    assert_eq!(text(src, t.raw), "3");
    assert_eq!(block.else_children.as_ref().map(|c| c.len()), Some(1));
}

#[test]
fn svelte_each_block_with_index_key_and_else() {
    let src = "{#each items as { id, name }, i (id)}<li>{name}</li>{:else}none{/each}";
    let root = parse(src, Language::Svelte).unwrap();
    let Node::SvelteEachBlock(block) = &root.children[0] else { panic!("expected each") };
    assert_eq!(text(src, block.expr), "items");
    assert_eq!(text(src, block.binding), "{ id, name }");
    assert_eq!(block.index.map(|v| text(src, v)), Some("i"));
    assert_eq!(block.key.map(|v| text(src, v)), Some("id"));
    assert_eq!(block.children.len(), 1);
    assert_eq!(block.else_children.as_ref().map(|c| c.len()), Some(1));
}

#[test]
fn svelte_each_block_plain() {
    let src = "{#each a.b(c) as [x, y]}t{/each}";
    let root = parse(src, Language::Svelte).unwrap();
    let Node::SvelteEachBlock(block) = &root.children[0] else { panic!("expected each") };
    assert_eq!(text(src, block.expr), "a.b(c)");
    assert_eq!(text(src, block.binding), "[x, y]");
    assert_eq!(block.index, None);
    assert_eq!(block.key, None);
    assert_eq!(block.else_children, None);
}

#[test]
fn svelte_await_block_with_sections() {
    let src = "{#await p}wait{:then v}ok{:catch e}bad{/await}";
    let root = parse(src, Language::Svelte).unwrap();
    let Node::SvelteAwaitBlock(block) = &root.children[0] else { panic!("expected await") };
    assert_eq!(text(src, block.expr), "p");
    assert_eq!(block.then_binding, None);
    assert_eq!(block.catch_binding, None);
    assert_eq!(block.children.len(), 1);
    let then_block = block.then_block.as_ref().expect("then block");
    assert_eq!(text(src, then_block.binding), "v");
    assert_eq!(then_block.children.len(), 1);
    let catch_block = block.catch_block.as_ref().expect("catch block");
    assert_eq!(catch_block.binding.map(|b| text(src, b)), Some("e"));
    assert_eq!(catch_block.children.len(), 1);
}

#[test]
fn svelte_await_block_short_forms() {
    let src = "{#await load() then { data }}ok{/await}";
    let root = parse(src, Language::Svelte).unwrap();
    let Node::SvelteAwaitBlock(block) = &root.children[0] else { panic!("expected await") };
    assert_eq!(text(src, block.expr), "load()");
    assert_eq!(block.then_binding.map(|b| text(src, b)), Some("{ data }"));
    assert_eq!(block.catch_binding, None);
    assert_eq!(block.then_block, None);
    assert_eq!(block.catch_block, None);

    let src = "{#await p catch e}bad{:catch}worse{/await}";
    let root = parse(src, Language::Svelte).unwrap();
    let Node::SvelteAwaitBlock(block) = &root.children[0] else { panic!("expected await") };
    assert_eq!(text(src, block.expr), "p");
    assert_eq!(block.catch_binding.map(|b| text(src, b)), Some("e"));
    let catch_block = block.catch_block.as_ref().expect("catch block");
    assert_eq!(catch_block.binding, None);
}

#[test]
fn svelte_await_keyword_inside_braces_belongs_to_the_expression() {
    let src = "{#await f({a: 1, b: c then}) then v}ok{/await}";
    let root = parse(src, Language::Svelte).unwrap();
    let Node::SvelteAwaitBlock(block) = &root.children[0] else { panic!("expected await") };
    assert_eq!(text(src, block.expr), "f({a: 1, b: c then})");
    assert_eq!(block.then_binding.map(|b| text(src, b)), Some("v"));
}

#[test]
fn svelte_key_block() {
    let src = "{#key value}<p>x</p>{/key}";
    let root = parse(src, Language::Svelte).unwrap();
    let Node::SvelteKeyBlock(block) = &root.children[0] else { panic!("expected key") };
    assert_eq!(text(src, block.expr), "value");
    assert_eq!(block.children.len(), 1);
}

#[test]
fn svelte_nested_blocks() {
    let src = "{#if a}{#each b as c}{c}{/each}{/if}";
    let root = parse(src, Language::Svelte).unwrap();
    let Node::SvelteIfBlock(outer) = &root.children[0] else { panic!("expected if") };
    assert_eq!(outer.children.len(), 1);
    let Node::SvelteEachBlock(inner) = &outer.children[0] else { panic!("expected each") };
    assert_eq!(text(src, inner.binding), "c");
}

#[test]
fn svelte_unknown_block_is_reported_at_the_hash() {
    let err = parse("ab{#foo x}{/foo}", Language::Svelte).unwrap_err();
    assert_eq!(err, SyntaxError { kind: SyntaxErrorKind::UnknownSvelteBlock, pos: 3 });
}

#[test]
fn svelte_error_inside_a_block_is_reported_at_its_hash() {
    let err = parse("{#if a}<b>{/if}", Language::Svelte).unwrap_err();
    assert_eq!(err, SyntaxError { kind: SyntaxErrorKind::UnknownSvelteBlock, pos: 1 });
    let err = parse("{#key a}x", Language::Svelte).unwrap_err();
    assert_eq!(err, SyntaxError { kind: SyntaxErrorKind::UnknownSvelteBlock, pos: 1 });
}

#[test]
fn svelte_at_tag_needs_a_name() {
    let err = parse("{@ x}", Language::Svelte).unwrap_err();
    assert_eq!(err, SyntaxError { kind: SyntaxErrorKind::ExpectIdentifier, pos: 2 });
}

// ---- Astro ----

#[test]
fn astro_expression_with_markup() {
    let src = "{ items.map(i => <li>{i}</li> <b/>) }";
    let root = parse(src, Language::Astro).unwrap();
    assert_eq!(root.children.len(), 1);
    let Node::AstroExpr(expr) = &root.children[0] else { panic!("expected expr") };
    assert_eq!(expr.children.len(), 3);
    let AstroExprChild::Script(head) = &expr.children[0] else { panic!("expected script") };
    assert_eq!(text(src, *head), " items.map(i => ");
    let AstroExprChild::Template(nodes) = &expr.children[1] else { panic!("expected template") };
    assert_eq!(nodes.len(), 3);
    assert_eq!(text(src, element(&nodes[0]).tag_name), "li");
    let Node::TextNode(space) = &nodes[1] else { panic!("expected text") };
    assert_eq!(text(src, space.raw), " ");
    assert_eq!(text(src, element(&nodes[2]).tag_name), "b");
    let AstroExprChild::Script(tail) = &expr.children[2] else { panic!("expected script") };
    assert_eq!(text(src, *tail), ") ");
}

#[test]
fn astro_expression_drops_leading_whitespace_before_markup() {
    let src = "{\n  <p/>}";
    let root = parse(src, Language::Astro).unwrap();
    let Node::AstroExpr(expr) = &root.children[0] else { panic!("expected expr") };
    assert_eq!(expr.children.len(), 2);
    let AstroExprChild::Template(nodes) = &expr.children[0] else { panic!("expected template") };
    assert_eq!(nodes.len(), 1);
    let AstroExprChild::Script(tail) = &expr.children[1] else { panic!("expected script") };
    assert_eq!(text(src, *tail), "");
}

#[test]
fn astro_expression_parts_alternate() {
    let src = "{cond ? <a/> : <b/>}{x}{<i/><j/>}";
    let root = parse(src, Language::Astro).unwrap();
    assert_eq!(root.children.len(), 3);
    for node in &root.children {
        let Node::AstroExpr(expr) = node else { panic!("expected expr") };
        for pair in expr.children.windows(2) {
            let first_is_script = matches!(pair[0], AstroExprChild::Script(_));
            let second_is_script = matches!(pair[1], AstroExprChild::Script(_));
            assert_ne!(first_is_script, second_is_script);
        }
    }
}

#[test]
fn astro_nested_braces_in_expression() {
    let src = "{ {a: {b}} }x";
    let root = parse(src, Language::Astro).unwrap();
    assert_eq!(root.children.len(), 2);
    let Node::AstroExpr(expr) = &root.children[0] else { panic!("expected expr") };
    assert_eq!(expr.children.len(), 1);
    let AstroExprChild::Script(body) = &expr.children[0] else { panic!("expected script") };
    assert_eq!(text(src, *body), " {a: {b}} ");
}

#[test]
fn astro_fragment() {
    let src = "<>a</>";
    let root = parse(src, Language::Astro).unwrap();
    let e = element(&root.children[0]);
    assert_eq!(text(src, e.tag_name), "");
    assert_eq!(e.children.len(), 1);
}

#[test]
fn astro_attributes() {
    let src = "<a {...props} b={c}/>";
    let root = parse(src, Language::Astro).unwrap();
    let a = element(&root.children[0]);
    let Attribute::AstroAttribute(spread) = &a.attrs[0] else { panic!("expected astro attr") };
    assert_eq!(spread.name, None);
    assert_eq!(text(src, spread.expr), "...props");
    let Attribute::AstroAttribute(b) = &a.attrs[1] else { panic!("expected astro attr") };
    assert_eq!(b.name.map(|n| text(src, n)), Some("b"));
    assert_eq!(text(src, b.expr), "c");
}

#[test]
fn astro_front_matter_skips_fences_in_strings_and_comments() {
    let src = "---\nconst a = '---';\n// ---\n/* --- */ const b = `${'---'}`;\n---\nx";
    let root = parse(src, Language::Astro).unwrap();
    assert_eq!(root.children.len(), 2);
    let Node::AstroFrontMatter(fm) = &root.children[0] else { panic!("expected front matter") };
    assert_eq!(
        text(src, fm.raw),
        "\nconst a = '---';\n// ---\n/* --- */ const b = `${'---'}`;\n"
    );
    let Node::TextNode(t) = &root.children[1] else { panic!("expected text") };
    assert_eq!(text(src, t.raw), "\nx");
}

#[test]
fn astro_second_fence_is_text() {
    let src = "------a---b";
    let root = parse(src, Language::Astro).unwrap();
    assert_eq!(root.children.len(), 2);
    let Node::AstroFrontMatter(fm) = &root.children[0] else { panic!("expected front matter") };
    assert_eq!(text(src, fm.raw), "");
    let Node::TextNode(t) = &root.children[1] else { panic!("expected text") };
    assert_eq!(text(src, t.raw), "a---b");
}

#[test]
fn astro_text_ends_before_front_matter() {
    let src = "a\n---\nb\n---\n";
    let root = parse(src, Language::Astro).unwrap();
    assert_eq!(root.children.len(), 3);
    let Node::TextNode(a) = &root.children[0] else { panic!("expected text") };
    assert_eq!(text(src, a.raw), "a\n");
    let Node::AstroFrontMatter(fm) = &root.children[1] else { panic!("expected front matter") };
    assert_eq!(text(src, fm.raw), "\nb\n");
}

#[test]
fn astro_front_matter_without_end_is_empty() {
    let src = "---\nconst a = 1;";
    let root = parse(src, Language::Astro).unwrap();
    assert_eq!(root.children.len(), 1);
    let Node::AstroFrontMatter(fm) = &root.children[0] else { panic!("expected front matter") };
    assert_eq!(fm.raw, Span { start: 3, end: 3 });
}

// ---- Jinja ----

#[test]
fn jinja_leaves() {
    let src = "{# note #}{{ x | f }}{% include 'a' %}{{";
    let root = parse(src, Language::Jinja).unwrap();
    assert_eq!(root.children.len(), 4);
    let Node::JinjaComment(c) = &root.children[0] else { panic!("expected comment") };
    assert_eq!(text(src, c.raw), " note ");
    let Node::JinjaInterpolation(i) = &root.children[1] else { panic!("expected interpolation") };
    assert_eq!(text(src, i.expr), " x | f ");
    let Node::JinjaTag(t) = &root.children[2] else { panic!("expected tag") };
    assert_eq!(text(src, t.content), " include 'a' ");
    let Node::JinjaInterpolation(open) = &root.children[3] else { panic!("expected interpolation") };
    assert_eq!(text(src, open.expr), "");
}

#[test]
fn jinja_text_boundaries() {
    let src = "a { b {x} {% y %}";
    let root = parse(src, Language::Jinja).unwrap();
    assert_eq!(root.children.len(), 2);
    let Node::TextNode(t) = &root.children[0] else { panic!("expected text") };
    assert_eq!(text(src, t.raw), "a { b {x} ");
}

#[test]
fn jinja_block_with_whitespace_control_and_nested_tags() {
    let src = "{%- for x in xs -%}{% set y = x %}{% if y %}z{% endif %}{%- endfor %}";
    let root = parse(src, Language::Jinja).unwrap();
    assert_eq!(root.children.len(), 1);
    let Node::JinjaBlock(block) = &root.children[0] else { panic!("expected a block") };
    assert_eq!(block.body.len(), 4);
    let JinjaTagOrChildren::Tag(open) = &block.body[0] else { panic!("expected a tag") };
    assert_eq!(text(src, open.content), "- for x in xs -");
    let JinjaTagOrChildren::Children(set) = &block.body[1] else { panic!("expected children") };
    assert_eq!(set.len(), 1);
    assert!(matches!(set[0], Node::JinjaTag(_)));
    let JinjaTagOrChildren::Children(inner) = &block.body[2] else { panic!("expected children") };
    assert_eq!(inner.len(), 1);
    let Node::JinjaBlock(inner_block) = &inner[0] else { panic!("expected a block") };
    assert_eq!(inner_block.body.len(), 3);
    let JinjaTagOrChildren::Tag(close) = &block.body[3] else { panic!("expected a tag") };
    assert_eq!(text(src, close.content), "- endfor ");
}

#[test]
fn jinja_elif_is_a_branch_only_in_if_and_for() {
    let src = "{% block a %}{% else %}{% endblock %}";
    let root = parse(src, Language::Jinja).unwrap();
    let Node::JinjaBlock(block) = &root.children[0] else { panic!("expected a block") };
    assert_eq!(block.body.len(), 3);
    let JinjaTagOrChildren::Children(c) = &block.body[1] else { panic!("expected children") };
    assert!(matches!(c[0], Node::JinjaTag(_)));
}

#[test]
fn jinja_unclosed_block() {
    let err = parse("{% if x %}a", Language::Jinja).unwrap_err();
    assert_eq!(err, SyntaxError { kind: SyntaxErrorKind::ExpectJinjaBlockEnd, pos: 11 });
}

#[test]
fn jinja_every_block_opener() {
    for name in [
        "for", "if", "macro", "call", "filter", "block", "apply", "autoescape", "embed", "with",
    ] {
        let src = format!("{{% {0} x %}}b{{% end{0} %}}", name);
        let root = parse(&src, Language::Jinja).unwrap();
        assert_eq!(root.children.len(), 1, "{}", name);
        assert!(matches!(root.children[0], Node::JinjaBlock(_)), "{}", name);
    }
    let root = parse("{% set x = 1 %}b{% endset %}", Language::Jinja).unwrap();
    assert_eq!(root.children.len(), 3);
}

// ---- Vento ----

#[test]
fn vento_leaves() {
    let src = "{{# note #}}{{> 1 + 1 }}{{ user.name }}{{ include \"a.vto\" }}{{ set x = 1 }}";
    let root = parse(src, Language::Vento).unwrap();
    assert_eq!(root.children.len(), 5);
    let Node::VentoComment(c) = &root.children[0] else { panic!("expected comment") };
    assert_eq!(text(src, c.raw), " note ");
    let Node::VentoEval(e) = &root.children[1] else { panic!("expected eval") };
    assert_eq!(text(src, e.raw), " 1 + 1 ");
    let Node::VentoInterpolation(i) = &root.children[2] else { panic!("expected interpolation") };
    assert_eq!(text(src, i.expr), " user.name ");
    let Node::VentoTag(t) = &root.children[3] else { panic!("expected tag") };
    assert_eq!(text(src, t.tag), " include \"a.vto\" ");
    let Node::VentoTag(s) = &root.children[4] else { panic!("expected tag") };
    assert_eq!(text(src, s.tag), " set x = 1 ");
}

#[test]
fn vento_if_else_merges_children_runs() {
    let src = "{{ if a }}1{{ b }}2{{ else }}3{{ /if }}";
    let root = parse(src, Language::Vento).unwrap();
    let Node::VentoBlock(block) = &root.children[0] else { panic!("expected a block") };
    assert_eq!(block.body.len(), 5);
    let VentoTagOrChildren::Children(first) = &block.body[1] else { panic!("expected children") };
    assert_eq!(first.len(), 3);
    assert!(matches!(first[1], Node::VentoInterpolation(_)));
    let VentoTagOrChildren::Tag(e) = &block.body[2] else { panic!("expected a tag") };
    assert_eq!(text(src, e.tag), " else ");
    let VentoTagOrChildren::Children(second) = &block.body[3] else { panic!("expected children") };
    assert_eq!(second.len(), 1);
}

#[test]
fn vento_function_blocks() {
    for open in ["function f(a)", "async function f()", "export function f()", "export async function f()"] {
        let src = format!("{{{{ {} }}}}x{{{{ /function }}}}", open);
        let parsed = parse(&src, Language::Vento);
        if open == "export async function f()" {
            assert_eq!(
                parsed.unwrap_err().kind,
                SyntaxErrorKind::ExpectVentoBlockEnd,
                "{}",
                open
            );
        } else {
            let root = parsed.unwrap();
            assert_eq!(root.children.len(), 1, "{}", open);
            let Node::VentoBlock(block) = &root.children[0] else { panic!("expected a block") };
            assert_eq!(block.body.len(), 3);
        }
    }
}

#[test]
fn vento_set_and_export_blocks_without_equals() {
    let src = "{{ set x }}v{{ /set }}{{ export y }}w{{ /export }}";
    let root = parse(src, Language::Vento).unwrap();
    assert_eq!(root.children.len(), 2);
    assert!(matches!(root.children[0], Node::VentoBlock(_)));
    assert!(matches!(root.children[1], Node::VentoBlock(_)));
}

#[test]
fn vento_nested_blocks() {
    let src = "{{ for x of xs }}{{ if x }}{{ x }}{{ /if }}{{ /for }}";
    let root = parse(src, Language::Vento).unwrap();
    let Node::VentoBlock(outer) = &root.children[0] else { panic!("expected a block") };
    assert_eq!(outer.body.len(), 3);
    let VentoTagOrChildren::Children(c) = &outer.body[1] else { panic!("expected children") };
    assert_eq!(c.len(), 1);
    assert!(matches!(c[0], Node::VentoBlock(_)));
}

#[test]
fn vento_unclosed_block() {
    let err = parse("{{ for x of xs }}a", Language::Vento).unwrap_err();
    assert_eq!(err, SyntaxError { kind: SyntaxErrorKind::ExpectVentoBlockEnd, pos: 18 });
}

// ---- the end of the input inside a construct ----

#[test]
fn svelte_expression_without_end_is_empty() {
    let src = "{a + b";
    let root = parse(src, Language::Svelte).unwrap();
    assert_eq!(root.children.len(), 1);
    let Node::SvelteInterpolation(i) = &root.children[0] else { panic!("expected interpolation") };
    assert_eq!(i.expr, Span { start: 1, end: 1 });
}

#[test]
fn jinja_tag_and_comment_without_end_run_to_end_of_input() {
    let src = "{% set x";
    let root = parse(src, Language::Jinja).unwrap();
    let Node::JinjaTag(t) = &root.children[0] else { panic!("expected tag") };
    assert_eq!(text(src, t.content), " set x");

    let src = "{# c #";
    let root = parse(src, Language::Jinja).unwrap();
    let Node::JinjaComment(c) = &root.children[0] else { panic!("expected comment") };
    assert_eq!(text(src, c.raw), " c #");
}

#[test]
fn vento_tag_without_end_runs_to_end_of_input() {
    let src = "{{ a }";
    let root = parse(src, Language::Vento).unwrap();
    let Node::VentoInterpolation(i) = &root.children[0] else { panic!("expected interpolation") };
    assert_eq!(text(src, i.expr), " a }");
}

#[test]
fn astro_expression_without_end_drops_its_tail() {
    let src = "{a <b/> c";
    let root = parse(src, Language::Astro).unwrap();
    let Node::AstroExpr(expr) = &root.children[0] else { panic!("expected expr") };
    assert_eq!(expr.children.len(), 2);
    let AstroExprChild::Script(head) = &expr.children[0] else { panic!("expected script") };
    assert_eq!(text(src, *head), "a ");
    assert!(matches!(expr.children[1], AstroExprChild::Template(_)));
}

#[test]
fn svelte_each_keeps_braces_in_its_expression() {
    let src = "{#each Object.entries({a: 1}) as [k, v]}{k}{/each}";
    let root = parse(src, Language::Svelte).unwrap();
    let Node::SvelteEachBlock(block) = &root.children[0] else { panic!("expected each") };
    assert_eq!(text(src, block.expr), "Object.entries({a: 1})");
    assert_eq!(text(src, block.binding), "[k, v]");
}

#[test]
fn svelte_await_swallows_a_partial_keyword() {
    let src = "{#await p then x cat}ok{/await}";
    let root = parse(src, Language::Svelte).unwrap();
    let Node::SvelteAwaitBlock(block) = &root.children[0] else { panic!("expected await") };
    assert_eq!(text(src, block.expr), "p");
    assert_eq!(block.then_binding.map(|b| text(src, b)), Some("x"));
    assert_eq!(block.catch_binding, None);
}

#[test]
fn svelte_later_else_replaces_earlier() {
    let src = "{#if a}1{:else}2{:else}3{/if}";
    let root = parse(src, Language::Svelte).unwrap();
    let Node::SvelteIfBlock(block) = &root.children[0] else { panic!("expected if") };
    let else_children = block.else_children.as_ref().expect("else children");
    let Node::TextNode(t) = &else_children[0] else { panic!("expected text") };
    assert_eq!(text(src, t.raw), "3");
}

#[test]
fn front_matter_with_escapes_and_nesting() {
    let src = "---\nconst a = 'it\\'s ---'; const b = {c: `x${ {d: '}'}.d }---`};\n---\n";
    let root = parse(src, Language::Astro).unwrap();
    assert_eq!(root.children.len(), 2);
    let Node::AstroFrontMatter(fm) = &root.children[0] else { panic!("expected front matter") };
    assert_eq!(
        text(src, fm.raw),
        "\nconst a = 'it\\'s ---'; const b = {c: `x${ {d: '}'}.d }---`};\n"
    );
}

#[test]
fn jinja_tag_name_may_follow_any_whitespace() {
    let src = "{%\u{a0}if x %}a{%\u{b}endif %}";
    let root = parse(src, Language::Jinja).unwrap();
    assert_eq!(root.children.len(), 1);
    let Node::JinjaBlock(block) = &root.children[0] else { panic!("expected a block") };
    assert_eq!(block.body.len(), 3);
}

#[test]
fn vento_tags_may_be_padded_with_any_whitespace() {
    let src = "{{\u{a0}if a\u{a0}}}x{{\u{2003}/if\u{a0} }}";
    let root = parse(src, Language::Vento).unwrap();
    assert_eq!(root.children.len(), 1);
    let Node::VentoBlock(block) = &root.children[0] else { panic!("expected a block") };
    assert_eq!(block.body.len(), 3);
}

//! Progress: what a grammar rule reads lies inside the source, and every
//! construct is at least one byte long.
//!
//! The recursive rules of [`crate::leaf`] and [`crate::tree`] test with
//! [`ahead`] that reading went forward before they go on. The lemmas here
//! show that the test holds wherever it is taken.

use vstd::prelude::*;
use vstd::string::StringSliceAdditionalSpecFns;
use crate::ast::{Attribute, JinjaTag};
use crate::error::SyntaxErrorKind;
use crate::laws::lemma_text_end_bounds;
use crate::leaf::{
    ahead, attr, attr_name, attr_value, await_expr, await_header, block_open, block_tag,
    braced_expr, close_tag, comment, delimited, doctype, each_expr, each_header, each_index,
    each_key, fence, front_matter, identifier, inside, jinja_comment, jinja_tag, mustache, name,
    native, open_tag, opt_binding, opt_value, raw_text_end, raw_text_node, section, svelte_at_tag,
    svelte_binding, svelte_interpolation, tag_name, text_node, vue_name,
};
use crate::model::{AstroPart, ElseIfModel, JinjaPart, NodeModel, VentoPart};
use crate::parser::Language;
use crate::scan::{
    at, balanced, CharClass, class_at, has_lit, klen, lemma_find_bounds, lemma_prefix_len,
    lemma_run_end_bounds, lit_len, skip_ws, spec_is_ascii_whitespace, until,
};
use crate::span::Span;
use crate::tree::{
    astro_body, astro_expr, block_children, BlockKind, Branch, branch, element, element_children,
    if_branches, jinja_after, jinja_body, node, root, section_children, svelte_await_block,
    svelte_block, svelte_each_block, svelte_if_block, svelte_key_block, vento_after, vento_body,
};

verus! {

/// `q` lies at or behind `p` and inside the source.
pub open spec fn onward(s: Seq<u8>, p: int, q: int) -> bool {
    p <= q <= s.len()
}

pub(crate) proof fn lemma_skip_ws(s: Seq<u8>, p: int)
    requires
        0 <= p <= s.len(),
    ensures
        onward(s, p, skip_ws(s, p)),
{
    lemma_run_end_bounds(s, p, CharClass::Whitespace);
}

pub(crate) proof fn lemma_until(s: Seq<u8>, p: int, close: &str)
    requires
        0 <= p <= s.len(),
    ensures
        onward(s, p, until(s, p, close).1),
{
    lemma_find_bounds(s, p, close.spec_bytes());
    lemma_prefix_len(s, crate::scan::find(s, p, close.spec_bytes()), close.spec_bytes(), false, 0);
}

pub(crate) proof fn lemma_balanced(s: Seq<u8>, p: int, open: u8, close: u8, depth: nat)
    requires
        0 <= p <= s.len(),
    ensures
        balanced(s, p, open, close, depth) matches Some(e) ==> p <= e < s.len(),
    decreases s.len() - p,
{
    if p < s.len() {
        if s[p] == open {
            lemma_balanced(s, p + 1, open, close, depth + 1);
        } else if s[p] == close {
            if depth > 0 {
                lemma_balanced(s, p + 1, open, close, (depth - 1) as nat);
            }
        } else {
            lemma_balanced(s, p + 1, open, close, depth);
        }
    }
}

pub(crate) proof fn lemma_name(s: Seq<u8>, p: int, cl: CharClass, kind: SyntaxErrorKind)
    requires
        0 <= p <= s.len(),
    ensures
        name(s, p, cl, kind) matches Ok((_, q)) ==> ahead(s, p, q),
{
    if class_at(s, p, cl) {
        lemma_run_end_bounds(s, p + 1, cl);
    }
}

pub(crate) proof fn lemma_tag_name(s: Seq<u8>, lang: Language, p: int)
    requires
        0 <= p <= s.len(),
    ensures
        tag_name(s, lang, p) matches Ok((_, q)) ==> onward(s, p, q),
{
    reveal(tag_name);
    lemma_name(s, p, CharClass::TagName, SyntaxErrorKind::ExpectTagName);
}

pub(crate) proof fn lemma_attr_value(s: Seq<u8>, p: int)
    requires
        0 <= p <= s.len(),
    ensures
        attr_value(s, p) matches Ok((_, q)) ==> ahead(s, p, q),
{
    lemma_name(s, p, CharClass::AttrValue, SyntaxErrorKind::ExpectAttrValue);
    if p < s.len() {
        lemma_until(s, p + 1, "\"");
        lemma_until(s, p + 1, "'");
    }
}

pub(crate) proof fn lemma_opt_value(s: Seq<u8>, p: int)
    requires
        0 <= p <= s.len(),
    ensures
        opt_value(s, p) matches Ok((_, q)) ==> onward(s, p, q),
{
    lemma_skip_ws(s, p);
    let q = skip_ws(s, p);
    if at(s, q, '=' as u8) {
        lemma_skip_ws(s, q + 1);
        lemma_attr_value(s, skip_ws(s, q + 1));
    }
}

pub(crate) proof fn lemma_braced_expr(s: Seq<u8>, p: int)
    requires
        0 <= p <= s.len(),
    ensures
        onward(s, p, braced_expr(s, p).1),
{
    reveal(braced_expr);
    lemma_skip_ws(s, p);
    lemma_balanced(s, skip_ws(s, p), '{' as u8, '}' as u8, 0);
}

pub(crate) proof fn lemma_inside(s: Seq<u8>, p: int, open: u8, close: u8, inclusive: bool)
    requires
        0 <= p <= s.len(),
    ensures
        inside(s, p, open, close, inclusive) matches Ok((_, q)) ==> ahead(s, p, q),
{
    if at(s, p, open) {
        lemma_balanced(s, p + 1, open, close, 0);
    }
}

pub(crate) proof fn lemma_svelte_binding(s: Seq<u8>, p: int)
    requires
        0 <= p <= s.len(),
    ensures
        svelte_binding(s, p) matches Ok((_, q)) ==> ahead(s, p, q),
{
    lemma_inside(s, p, '{' as u8, '}' as u8, true);
    lemma_inside(s, p, '[' as u8, ']' as u8, true);
    lemma_name(s, p, CharClass::Identifier, SyntaxErrorKind::ExpectIdentifier);
}

pub(crate) proof fn lemma_attr(s: Seq<u8>, lang: Language, p: int)
    requires
        0 <= p <= s.len(),
    ensures
        attr(s, lang, p) matches Ok((_, q)) ==> ahead(s, p, q),
{
    // native
    lemma_name(s, p, CharClass::AttrName, SyntaxErrorKind::ExpectAttrName);
    if let Ok((_, q)) = attr_name(s, p) {
        lemma_opt_value(s, q);
        // svelte and astro
        lemma_skip_ws(s, q);
        let a = skip_ws(s, q);
        if a < s.len() {
            lemma_skip_ws(s, a + 1);
            let b = skip_ws(s, a + 1);
            if b < s.len() {
                lemma_braced_expr(s, b + 1);
            }
        }
    }
    if p < s.len() {
        lemma_braced_expr(s, p + 1);
    }
    // vue
    if let Ok((_, q)) = vue_name(s, p) {
        if at(s, p, 'v' as u8) && at(s, p + 1, '-' as u8) && !crate::leaf::vue_punct(s, p) {
            lemma_name(s, p + 2, CharClass::Identifier, SyntaxErrorKind::ExpectIdentifier);
        }
        lemma_opt_value(s, q);
        lemma_name(s, q, CharClass::AttrName, SyntaxErrorKind::ExpectAttrName);
        if let Ok((_, r)) = attr_name(s, q) {
            lemma_opt_value(s, r);
        }
    }
}

pub(crate) proof fn lemma_open_tag(s: Seq<u8>, lang: Language, p: int, acc: Seq<Attribute>, same_line: bool)
    requires
        0 <= p <= s.len(),
    ensures
        open_tag(s, lang, p, acc, same_line) matches Ok((_, q)) ==> ahead(s, p, q),
    decreases s.len() - p,
{
    reveal(open_tag);
    if at(s, p, '/' as u8) {
    } else if at(s, p, '>' as u8) {
    } else if at(s, p, '\n' as u8) {
        lemma_open_tag(s, lang, p + 1, acc, same_line && acc.len() > 0);
    } else if class_at(s, p, CharClass::Whitespace) {
        lemma_open_tag(s, lang, p + 1, acc, same_line);
    } else {
        if let Ok((a, q)) = attr(s, lang, p) {
            if ahead(s, p, q) {
                lemma_open_tag(s, lang, q, acc.push(a), same_line);
            }
        }
    }
}

pub(crate) proof fn lemma_raw_text_end(s: Seq<u8>, p: int, tag: Seq<u8>)
    requires
        0 <= p <= s.len(),
    ensures
        onward(s, p, raw_text_end(s, p, tag)),
        p < s.len() && !at(s, p, '<' as u8) ==> p < raw_text_end(s, p, tag),
{
    crate::laws::lemma_raw_text_end_bounds(s, p, tag);
}

pub(crate) proof fn lemma_raw_text_node(s: Seq<u8>, p: int, tag: Span)
    requires
        0 <= p <= s.len(),
    ensures
        onward(s, p, raw_text_node(s, p, tag).1),
        p < s.len() && !at(s, p, '<' as u8) ==> ahead(s, p, raw_text_node(s, p, tag).1),
{
    reveal(raw_text_node);
    lemma_raw_text_end(s, p, tag.text(s));
}

pub(crate) proof fn lemma_doctype(s: Seq<u8>, p: int)
    requires
        0 <= p <= s.len(),
    ensures
        doctype(s, p) matches Ok((_, q)) ==> ahead(s, p, q),
{
    reveal(doctype);
    lemma_prefix_len(s, p, "<!doctype".spec_bytes(), true, 0);
    let a = p + crate::scan::lit_len_fold(s, p, "<!doctype");
    lemma_skip_ws(s, a);
    let b = skip_ws(s, a);
    lemma_prefix_len(s, b, "html".spec_bytes(), true, 0);
    let c = b + crate::scan::lit_len_fold(s, b, "html");
    lemma_skip_ws(s, c);
}

pub(crate) proof fn lemma_svelte_leaves(s: Seq<u8>, p: int)
    requires
        0 <= p <= s.len(),
    ensures
        svelte_at_tag(s, p) matches Ok((_, q)) ==> ahead(s, p, q),
        svelte_interpolation(s, p) matches Ok((_, q)) ==> ahead(s, p, q),
{
    reveal(svelte_at_tag);
    reveal(svelte_interpolation);
    if p < s.len() {
        lemma_braced_expr(s, p + 1);
    }
    reveal_strlit("{@");
    crate::scan::lemma_klen("{@", 2);
    lemma_prefix_len(s, p, "{@".spec_bytes(), false, 0);
    if has_lit(s, p, "{@") {
        lemma_name(s, p + 2, CharClass::Identifier, SyntaxErrorKind::ExpectIdentifier);
        if let Ok((_, q)) = identifier(s, p + 2) {
            lemma_skip_ws(s, q);
            lemma_braced_expr(s, skip_ws(s, q));
        }
    }
}

/// A fence that is found from `p` on lies at or behind `p`, and all of it
/// inside the source.
pub open spec fn fence_inside(s: Seq<u8>, p: int, stack: Seq<u8>) -> bool {
    fence(s, p, stack) matches Some(e) ==> p <= e && e + 3 <= s.len()
}

pub(crate) proof fn lemma_fence(s: Seq<u8>, p: int)
    requires
        0 <= p <= s.len(),
    ensures
        forall|stack: Seq<u8>| #[trigger] fence_inside(s, p, stack),
    decreases s.len() - p,
{
    if p < s.len() {
        lemma_fence(s, p + 1);
        if p + 2 <= s.len() {
            lemma_fence(s, p + 2);
        }
        assert forall|stack: Seq<u8>| #[trigger] fence_inside(s, p, stack) by {
            let c = s[p];
            assert(fence_inside(s, p + 1, stack));
            assert(fence_inside(s, p + 1, stack.drop_last()));
            assert(fence_inside(s, p + 1, stack.push(c)));
            assert(fence_inside(s, p + 1, stack.push('{' as u8)));
            if p + 2 <= s.len() {
                assert(fence_inside(s, p + 2, stack));
                assert(fence_inside(s, p + 2, stack.drop_last()));
                assert(fence_inside(s, p + 2, stack.push('$' as u8)));
                assert(fence_inside(s, p + 2, stack.push(s[p + 1])));
            }
        }
    }
}

pub(crate) proof fn lemma_front_matter(s: Seq<u8>, p: int)
    requires
        0 <= p <= s.len(),
    ensures
        front_matter(s, p) matches Ok((_, q)) ==> ahead(s, p, q),
{
    reveal(front_matter);
    reveal_strlit("---");
    crate::scan::lemma_klen("---", 3);
    lemma_prefix_len(s, p, "---".spec_bytes(), false, 0);
    if has_lit(s, p, "---") {
        lemma_fence(s, p + 3);
        assert(fence_inside(s, p + 3, Seq::empty()));
    }
}

pub(crate) proof fn lemma_block_tags(s: Seq<u8>, p: int, kw: &str)
    requires
        0 <= p <= s.len(),
    ensures
        block_open(s, p, kw) matches Ok(a) ==> ahead(s, p, a),
        block_tag(s, p, kw) matches Ok(a) ==> ahead(s, p, a),
{
    reveal(block_open);
    reveal(block_tag);
    lemma_prefix_len(s, p, kw.spec_bytes(), false, 0);
    lemma_skip_ws(s, p + lit_len(s, p, kw));
}

pub(crate) proof fn lemma_each_expr(s: Seq<u8>, p: int, end: int)
    requires
        0 <= p <= s.len(),
    ensures
        onward(s, p, each_expr(s, p, end).1),
    decreases s.len() - p,
{
    if p < s.len() {
        if spec_is_ascii_whitespace(s[p]) {
            lemma_skip_ws(s, p + 1);
            let q = skip_ws(s, p + 1);
            lemma_prefix_len(s, q, "as".spec_bytes(), false, 0);
            if !has_lit(s, q, "as") && ahead(s, p, q) {
                lemma_each_expr(s, q, p);
            }
        } else {
            lemma_each_expr(s, p + 1, p);
        }
    }
}

pub(crate) proof fn lemma_await_expr(s: Seq<u8>, p: int, depth: nat, end: int)
    requires
        0 <= p <= s.len(),
    ensures
        onward(s, p, await_expr(s, p, depth, end).1),
    decreases s.len() - p,
{
    if p < s.len() {
        if spec_is_ascii_whitespace(s[p]) {
            lemma_skip_ws(s, p + 1);
            let q = skip_ws(s, p + 1);
            if !(depth == 0 && (has_lit(s, q, "then") || has_lit(s, q, "catch"))) && ahead(
                s,
                p,
                q,
            ) {
                lemma_await_expr(s, q, depth, end);
            }
        } else if s[p] == '{' as u8 {
            lemma_await_expr(s, p + 1, depth + 1, p);
        } else if s[p] == '}' as u8 {
            if depth > 0 {
                lemma_await_expr(s, p + 1, (depth - 1) as nat, p);
            }
        } else {
            lemma_await_expr(s, p + 1, depth, p);
        }
    }
}

pub(crate) proof fn lemma_opt_binding(s: Seq<u8>, p: int, kw: &str)
    requires
        0 <= p <= s.len(),
    ensures
        opt_binding(s, p, kw) matches Ok((_, q)) ==> onward(s, p, q),
{
    lemma_skip_ws(s, p);
    let a = skip_ws(s, p);
    lemma_prefix_len(s, a, kw.spec_bytes(), false, 0);
    let b = a + lit_len(s, a, kw);
    lemma_skip_ws(s, b);
    lemma_svelte_binding(s, skip_ws(s, b));
}

pub(crate) proof fn lemma_each_header(s: Seq<u8>, p: int)
    requires
        0 <= p <= s.len(),
    ensures
        each_header(s, p) matches Ok((_, q)) ==> ahead(s, p, q),
{
    reveal(each_header);
    lemma_block_tags(s, p, "{#each");
    if let Ok(a) = block_open(s, p, "{#each") {
        lemma_skip_ws(s, a);
        let start = skip_ws(s, a);
        lemma_each_expr(s, start, start);
        let q = each_expr(s, start, start).1;
        lemma_skip_ws(s, q);
        lemma_svelte_binding(s, skip_ws(s, q));
        if let Ok((_, q1)) = svelte_binding(s, skip_ws(s, q)) {
            lemma_skip_ws(s, q1);
            let w = skip_ws(s, q1);
            if w < s.len() {
                lemma_skip_ws(s, w + 1);
                lemma_name(
                    s,
                    skip_ws(s, w + 1),
                    CharClass::Identifier,
                    SyntaxErrorKind::ExpectIdentifier,
                );
            }
            if let Ok((_, q2)) = each_index(s, q1) {
                lemma_skip_ws(s, q2);
                lemma_inside(s, skip_ws(s, q2), '(' as u8, ')' as u8, false);
                if let Ok((_, q3)) = each_key(s, q2) {
                    lemma_skip_ws(s, q3);
                }
            }
        }
    }
}

pub(crate) proof fn lemma_await_header(s: Seq<u8>, p: int)
    requires
        0 <= p <= s.len(),
    ensures
        await_header(s, p) matches Ok((_, q)) ==> ahead(s, p, q),
{
    reveal(await_header);
    lemma_block_tags(s, p, "{#await");
    if let Ok(a) = block_open(s, p, "{#await") {
        lemma_skip_ws(s, a);
        let start = skip_ws(s, a);
        lemma_await_expr(s, start, 0, start);
        let q = await_expr(s, start, 0, start).1;
        lemma_opt_binding(s, q, "then");
        if let Ok((_, q1)) = opt_binding(s, q, "then") {
            lemma_opt_binding(s, q1, "catch");
            if let Ok((_, q2)) = opt_binding(s, q1, "catch") {
                lemma_skip_ws(s, q2);
            }
        }
    }
}

pub(crate) proof fn lemma_section(s: Seq<u8>, p: int, kw: &str, optional: bool, kind: SyntaxErrorKind)
    requires
        0 <= p <= s.len(),
    ensures
        section(s, p, kw, optional, kind) matches Ok((x, q)) ==> onward(s, p, q) && (x is Some
            ==> p < q),
{
    reveal(section);
    lemma_prefix_len(s, p, kw.spec_bytes(), false, 0);
    if has_lit(s, p, kw) {
        lemma_skip_ws(s, p + klen(kw));
        let w = skip_ws(s, p + klen(kw));
        lemma_svelte_binding(s, w);
        if let Ok((_, q)) = svelte_binding(s, w) {
            lemma_skip_ws(s, q);
        }
    }
}

pub(crate) proof fn lemma_close_tag(s: Seq<u8>, lang: Language, p: int, tag: Span)
    requires
        0 <= p,
        p + 2 <= s.len(),
    ensures
        close_tag(s, lang, p, tag) matches Ok(q) ==> ahead(s, p, q),
{
    reveal(close_tag);
    lemma_tag_name(s, lang, p + 2);
    if let Ok((_, q)) = tag_name(s, lang, p + 2) {
        lemma_skip_ws(s, q);
    }
}

pub(crate) proof fn lemma_delimited(s: Seq<u8>, p: int, open: &str, close: &str, kind: SyntaxErrorKind)
    requires
        0 <= p <= s.len(),
        klen(open) > 0,
    ensures
        delimited(s, p, open, close, kind) matches Ok((_, q)) ==> ahead(s, p, q),
{
    lemma_prefix_len(s, p, open.spec_bytes(), false, 0);
    if has_lit(s, p, open) {
        lemma_until(s, p + klen(open), close);
    }
}

pub(crate) proof fn lemma_delimited_leaves(s: Seq<u8>, p: int)
    requires
        0 <= p <= s.len(),
    ensures
        comment(s, p) matches Ok((_, q)) ==> ahead(s, p, q),
        jinja_comment(s, p) matches Ok((_, q)) ==> ahead(s, p, q),
        jinja_tag(s, p) matches Ok((_, q)) ==> ahead(s, p, q),
        mustache(s, p) matches Ok((_, q)) ==> ahead(s, p, q),
{
    reveal(comment);
    reveal(jinja_comment);
    reveal(jinja_tag);
    reveal(mustache);
    reveal_strlit("<!--");
    reveal_strlit("{#");
    reveal_strlit("{%");
    reveal_strlit("{{");
    crate::scan::lemma_klen("<!--", 4);
    crate::scan::lemma_klen("{#", 2);
    crate::scan::lemma_klen("{%", 2);
    crate::scan::lemma_klen("{{", 2);
    lemma_delimited(s, p, "<!--", "-->", SyntaxErrorKind::ExpectComment);
    lemma_delimited(s, p, "{#", "#}", SyntaxErrorKind::ExpectComment);
    lemma_delimited(s, p, "{%", "%}", SyntaxErrorKind::ExpectJinjaTag);
    lemma_delimited(s, p, "{{", "}}", SyntaxErrorKind::ExpectMustacheInterpolation);
}

pub(crate) proof fn lemma_text_node(s: Seq<u8>, lang: Language, fm: bool, p: int)
    requires
        0 <= p <= s.len(),
    ensures
        text_node(s, lang, fm, p) matches Ok((_, q)) ==> ahead(s, p, q),
{
    reveal(text_node);
    if p < s.len() {
        lemma_text_end_bounds(s, lang, fm, p + 1);
    }
}

/// Every node is at least one byte long and ends inside the source.
pub proof fn lemma_node_advances(s: Seq<u8>, lang: Language, fm: bool, p: int)
    requires
        0 <= p <= s.len(),
    ensures
        node(s, lang, fm, p) matches Ok((_, q, _)) ==> ahead(s, p, q),
    decreases s.len() - p, 2int,
{
    reveal(branch);
    lemma_delimited_leaves(s, p);
    lemma_svelte_leaves(s, p);
    lemma_text_node(s, lang, fm, p);
    match branch(s, lang, fm, p) {
        Branch::Element => {
            lemma_element(s, lang, fm, p);
        },
        Branch::CommentOrDoctype => {
            lemma_doctype(s, p);
        },
        Branch::VentoTagOrBlock => {
            if let Ok((tag, q)) = mustache(s, p) {
                lemma_vento_after(s, lang, fm, q, tag);
            }
        },
        Branch::SvelteBlock => {
            lemma_svelte_block(s, lang, fm, p);
        },
        Branch::JinjaTagOrBlock => {
            if let Ok((tag, q)) = jinja_tag(s, p) {
                lemma_jinja_after(s, lang, fm, q, tag);
            }
        },
        Branch::AstroExpr => {
            lemma_astro_expr(s, lang, fm, p);
        },
        Branch::AstroFrontMatter => {
            lemma_front_matter(s, p);
        },
        _ => {},
    }
}

/// Reading the root ends at the end of the source.
pub proof fn lemma_root_reads_all(s: Seq<u8>, lang: Language, fm: bool, p: int, acc: Seq<NodeModel>)
    requires
        0 <= p <= s.len(),
    ensures
        root(s, lang, fm, p, acc) matches Ok((_, q, _)) ==> q == s.len(),
    decreases s.len() - p, 3int,
{
    if p < s.len() {
        lemma_node_advances(s, lang, fm, p);
        if let Ok((n, q, f)) = node(s, lang, fm, p) {
            lemma_root_reads_all(s, lang, f, q, acc.push(n));
        }
    }
}

pub(crate) proof fn lemma_block_children(
    s: Seq<u8>,
    lang: Language,
    fm: bool,
    p: int,
    kind: BlockKind,
    acc: Seq<NodeModel>,
)
    requires
        0 <= p <= s.len(),
    ensures
        block_children(s, lang, fm, p, kind, acc) matches Ok((_, q, _)) ==> onward(s, p, q)
            && kind.ends_at(s, q),
    decreases s.len() - p, 3int,
{
    if p < s.len() && !kind.ends_at(s, p) {
        lemma_node_advances(s, lang, fm, p);
        if let Ok((n, q, f)) = node(s, lang, fm, p) {
            lemma_block_children(s, lang, f, q, kind, acc.push(n));
        }
    }
}

pub(crate) proof fn lemma_element_children(
    s: Seq<u8>,
    lang: Language,
    fm: bool,
    p: int,
    tag: Span,
    raw: bool,
    acc: Seq<NodeModel>,
)
    requires
        0 <= p <= s.len(),
    ensures
        element_children(s, lang, fm, p, tag, raw, acc) matches Ok((_, q, _)) ==> ahead(s, p, q),
    decreases s.len() - p, 3int,
{
    if p < s.len() {
        if at(s, p, '<' as u8) && at(s, p + 1, '/' as u8) {
            lemma_close_tag(s, lang, p, tag);
        } else if raw && !at(s, p, '<' as u8) {
            lemma_raw_text_node(s, p, tag);
            let q = raw_text_node(s, p, tag).1;
            lemma_element_children(
                s,
                lang,
                fm,
                q,
                tag,
                raw,
                acc.push(NodeModel::TextNode(raw_text_node(s, p, tag).0)),
            );
        } else {
            lemma_node_advances(s, lang, fm, p);
            if let Ok((n, q, f)) = node(s, lang, fm, p) {
                lemma_element_children(s, lang, f, q, tag, raw, acc.push(n));
            }
        }
    }
}

pub(crate) proof fn lemma_element(s: Seq<u8>, lang: Language, fm: bool, p: int)
    requires
        0 <= p <= s.len(),
    ensures
        element(s, lang, fm, p) matches Ok((_, q, _)) ==> ahead(s, p, q),
    decreases s.len() - p, 0int,
{
    if at(s, p, '<' as u8) {
        lemma_tag_name(s, lang, p + 1);
        if let Ok((tag, q)) = tag_name(s, lang, p + 1) {
            lemma_open_tag(s, lang, q, Seq::empty(), true);
            if let Ok((open, q1)) = open_tag(s, lang, q, Seq::empty(), true) {
                lemma_raw_text_node(s, q1, tag);
                let raw = crate::names::spec_is_raw_text_tag(tag.text(s));
                let (first, q2) = raw_text_node(s, q1, tag);
                lemma_element_children(
                    s,
                    lang,
                    fm,
                    if raw {
                        q2
                    } else {
                        q1
                    },
                    tag,
                    raw,
                    if raw && first.raw.start < first.raw.end {
                        seq![NodeModel::TextNode(first)]
                    } else {
                        Seq::empty()
                    },
                );
            }
        }
    }
}

pub(crate) proof fn lemma_svelte_block(s: Seq<u8>, lang: Language, fm: bool, p: int)
    requires
        0 <= p <= s.len(),
    ensures
        svelte_block(s, lang, fm, p) matches Ok((_, q, _)) ==> ahead(s, p, q),
    decreases s.len() - p, 1int,
{
    lemma_svelte_if_block(s, lang, fm, p);
    lemma_svelte_each_block(s, lang, fm, p);
    lemma_svelte_await_block(s, lang, fm, p);
    lemma_svelte_key_block(s, lang, fm, p);
}

pub(crate) proof fn lemma_section_children(s: Seq<u8>, lang: Language, fm: bool, p: int, present: bool)
    requires
        0 <= p <= s.len(),
    ensures
        section_children(s, lang, fm, p, present) matches Ok((_, q, _)) ==> onward(s, p, q),
    decreases s.len() - p, 4int,
{
    if present {
        lemma_block_children(s, lang, fm, p, BlockKind::Svelte, Seq::empty());
    }
}

pub(crate) proof fn lemma_svelte_key_block(s: Seq<u8>, lang: Language, fm: bool, p: int)
    requires
        0 <= p <= s.len(),
    ensures
        svelte_key_block(s, lang, fm, p) matches Ok((_, q, _)) ==> ahead(s, p, q),
    decreases s.len() - p, 0int,
{
    lemma_block_tags(s, p, "{#key");
    if let Ok(a) = block_open(s, p, "{#key") {
        lemma_braced_expr(s, a);
        let q = braced_expr(s, a).1;
        lemma_block_children(s, lang, fm, q, BlockKind::Svelte, Seq::empty());
        if let Ok((_, r, _)) = block_children(s, lang, fm, q, BlockKind::Svelte, Seq::empty()) {
            lemma_block_tags(s, r, "{/key");
        }
    }
}

pub(crate) proof fn lemma_if_branches(
    s: Seq<u8>,
    lang: Language,
    fm: bool,
    p: int,
    else_ifs: Seq<ElseIfModel>,
    else_children: Option<Seq<NodeModel>>,
)
    requires
        0 <= p <= s.len(),
    ensures
        if_branches(s, lang, fm, p, else_ifs, else_children) matches Ok((_, q, _)) ==> ahead(
            s,
            p,
            q,
        ),
    decreases s.len() - p, 3int,
{
    if at(s, p, '{' as u8) && at(s, p + 1, ':' as u8) && has_lit(s, p + 2, "else") {
        lemma_prefix_len(s, p + 2, "else".spec_bytes(), false, 0);
        let a = p + 2 + lit_len(s, p + 2, "else");
        lemma_skip_ws(s, a);
        let w = skip_ws(s, a);
        if at(s, w, 'i' as u8) && at(s, w + 1, 'f' as u8) {
            lemma_braced_expr(s, w + 2);
            let q = braced_expr(s, w + 2).1;
            lemma_block_children(s, lang, fm, q, BlockKind::Svelte, Seq::empty());
            if let Ok((children, r, f)) = block_children(
                s,
                lang,
                fm,
                q,
                BlockKind::Svelte,
                Seq::empty(),
            ) {
                lemma_if_branches(
                    s,
                    lang,
                    f,
                    r,
                    else_ifs.push(ElseIfModel { expr: braced_expr(s, w + 2).0, children }),
                    else_children,
                );
            }
        } else if at(s, w, '}' as u8) {
            lemma_block_children(s, lang, fm, w + 1, BlockKind::Svelte, Seq::empty());
            if let Ok((children, r, f)) = block_children(
                s,
                lang,
                fm,
                w + 1,
                BlockKind::Svelte,
                Seq::empty(),
            ) {
                lemma_if_branches(s, lang, f, r, else_ifs, Some(children));
            }
        }
    }
}

pub(crate) proof fn lemma_svelte_if_block(s: Seq<u8>, lang: Language, fm: bool, p: int)
    requires
        0 <= p <= s.len(),
    ensures
        svelte_if_block(s, lang, fm, p) matches Ok((_, q, _)) ==> ahead(s, p, q),
    decreases s.len() - p, 0int,
{
    lemma_block_tags(s, p, "{#if");
    if let Ok(a) = block_open(s, p, "{#if") {
        lemma_braced_expr(s, a);
        let q = braced_expr(s, a).1;
        lemma_block_children(s, lang, fm, q, BlockKind::Svelte, Seq::empty());
        if let Ok((_, r, f)) = block_children(s, lang, fm, q, BlockKind::Svelte, Seq::empty()) {
            lemma_if_branches(s, lang, f, r, Seq::empty(), None);
            if let Ok((_, t, _)) = if_branches(s, lang, f, r, Seq::empty(), None) {
                lemma_block_tags(s, t, "if");
            }
        }
    }
}

pub(crate) proof fn lemma_svelte_each_block(s: Seq<u8>, lang: Language, fm: bool, p: int)
    requires
        0 <= p <= s.len(),
    ensures
        svelte_each_block(s, lang, fm, p) matches Ok((_, q, _)) ==> ahead(s, p, q),
    decreases s.len() - p, 0int,
{
    lemma_each_header(s, p);
    if let Ok((_, q)) = each_header(s, p) {
        lemma_block_children(s, lang, fm, q, BlockKind::Svelte, Seq::empty());
        if let Ok((_, r, f)) = block_children(s, lang, fm, q, BlockKind::Svelte, Seq::empty()) {
            lemma_block_tags(s, r, "{:else");
            let r1 = match block_tag(s, r, "{:else") {
                Ok(t) => t,
                Err(_) => r,
            };
            lemma_section_children(s, lang, f, r1, block_tag(s, r, "{:else") is Ok);
            if let Ok((_, r2, _)) = section_children(
                s,
                lang,
                f,
                r1,
                block_tag(s, r, "{:else") is Ok,
            ) {
                lemma_block_tags(s, r2, "{/each");
            }
        }
    }
}

pub(crate) proof fn lemma_svelte_await_block(s: Seq<u8>, lang: Language, fm: bool, p: int)
    requires
        0 <= p <= s.len(),
    ensures
        svelte_await_block(s, lang, fm, p) matches Ok((_, q, _)) ==> ahead(s, p, q),
    decreases s.len() - p, 0int,
{
    lemma_await_header(s, p);
    if let Ok((_, q)) = await_header(s, p) {
        lemma_block_children(s, lang, fm, q, BlockKind::Svelte, Seq::empty());
        if let Ok((_, r, f)) = block_children(s, lang, fm, q, BlockKind::Svelte, Seq::empty()) {
            lemma_section(s, r, "{:then", false, SyntaxErrorKind::ExpectSvelteThenBlock);
            if let Ok((then_tag, r1)) = section(
                s,
                r,
                "{:then",
                false,
                SyntaxErrorKind::ExpectSvelteThenBlock,
            ) {
                lemma_section_children(s, lang, f, r1, then_tag is Some);
                if let Ok((_, r2, f1)) = section_children(s, lang, f, r1, then_tag is Some) {
                    lemma_section(s, r2, "{:catch", true, SyntaxErrorKind::ExpectSvelteCatchBlock);
                    if let Ok((catch_tag, r3)) = section(
                        s,
                        r2,
                        "{:catch",
                        true,
                        SyntaxErrorKind::ExpectSvelteCatchBlock,
                    ) {
                        lemma_section_children(s, lang, f1, r3, catch_tag is Some);
                        if let Ok((_, r4, _)) = section_children(
                            s,
                            lang,
                            f1,
                            r3,
                            catch_tag is Some,
                        ) {
                            lemma_block_tags(s, r4, "{/await");
                        }
                    }
                }
            }
        }
    }
}

pub(crate) proof fn lemma_jinja_after(s: Seq<u8>, lang: Language, fm: bool, p: int, first: JinjaTag)
    requires
        0 <= p <= s.len(),
    ensures
        jinja_after(s, lang, fm, p, first) matches Ok((_, q, _)) ==> onward(s, p, q),
    decreases s.len() - p, 5int,
{
    lemma_jinja_body(s, lang, fm, p, first, seq![JinjaPart::Tag(first)]);
}

pub(crate) proof fn lemma_jinja_body(
    s: Seq<u8>,
    lang: Language,
    fm: bool,
    p: int,
    opener: JinjaTag,
    body: Seq<JinjaPart>,
)
    requires
        0 <= p <= s.len(),
    ensures
        jinja_body(s, lang, fm, p, opener, body) matches Ok((_, q, _)) ==> ahead(s, p, q),
    decreases s.len() - p, 4int,
{
    lemma_block_children(s, lang, fm, p, BlockKind::Jinja, Seq::empty());
    if let Ok((c, q, f)) = block_children(s, lang, fm, p, BlockKind::Jinja, Seq::empty()) {
        let body1 = if c.len() > 0 {
            body.push(JinjaPart::Children(c))
        } else {
            body
        };
        lemma_delimited_leaves(s, q);
        if let Ok((next, r)) = jinja_tag(s, q) {
            lemma_jinja_body(s, lang, f, r, opener, body1.push(JinjaPart::Tag(next)));
            lemma_jinja_after(s, lang, f, r, next);
            if let Ok((n, t, f1)) = jinja_after(s, lang, f, r, next) {
                lemma_jinja_body(
                    s,
                    lang,
                    f1,
                    t,
                    opener,
                    body1.push(JinjaPart::Children(seq![n])),
                );
            }
        }
    }
}

pub(crate) proof fn lemma_vento_after(s: Seq<u8>, lang: Language, fm: bool, p: int, first: Span)
    requires
        0 <= p <= s.len(),
    ensures
        vento_after(s, lang, fm, p, first) matches Ok((_, q, _)) ==> onward(s, p, q),
    decreases s.len() - p, 5int,
{
    lemma_vento_body(
        s,
        lang,
        fm,
        p,
        first,
        seq![VentoPart::Tag(crate::ast::VentoTag { tag: first })],
    );
}

pub(crate) proof fn lemma_vento_body(
    s: Seq<u8>,
    lang: Language,
    fm: bool,
    p: int,
    opener: Span,
    body: Seq<VentoPart>,
)
    requires
        0 <= p <= s.len(),
    ensures
        vento_body(s, lang, fm, p, opener, body) matches Ok((_, q, _)) ==> ahead(s, p, q),
    decreases s.len() - p, 4int,
{
    lemma_block_children(s, lang, fm, p, BlockKind::Vento, Seq::empty());
    if let Ok((c, q, f)) = block_children(s, lang, fm, p, BlockKind::Vento, Seq::empty()) {
        let body1 = if c.len() > 0 {
            crate::tree::vento_append(body, c)
        } else {
            body
        };
        lemma_delimited_leaves(s, q);
        if let Ok((next, r)) = mustache(s, q) {
            lemma_vento_body(
                s,
                lang,
                f,
                r,
                opener,
                body1.push(VentoPart::Tag(crate::ast::VentoTag { tag: next })),
            );
            lemma_vento_after(s, lang, f, r, next);
            if let Ok((n, t, f1)) = vento_after(s, lang, f, r, next) {
                lemma_vento_body(s, lang, f1, t, opener, crate::tree::vento_append(body1, seq![n]));
            }
        }
    }
}

pub(crate) proof fn lemma_astro_body(
    s: Seq<u8>,
    lang: Language,
    fm: bool,
    p: int,
    depth: nat,
    start: int,
    parts: Seq<AstroPart>,
)
    requires
        0 <= p <= s.len(),
    ensures
        astro_body(s, lang, fm, p, depth, start, parts) matches Ok((_, q, _)) ==> onward(s, p, q),
    decreases s.len() - p, 3int,
{
    if p < s.len() {
        if s[p] == '{' as u8 {
            lemma_astro_body(s, lang, fm, p + 1, depth + 1, start, parts);
        } else if s[p] == '}' as u8 {
            if depth > 0 {
                lemma_astro_body(s, lang, fm, p + 1, (depth - 1) as nat, start, parts);
            }
        } else if s[p] == '<' as u8 && (class_at(s, p + 1, CharClass::TagName) || at(
            s,
            p + 1,
            '!' as u8,
        ) || at(s, p + 1, '>' as u8)) {
            lemma_node_advances(s, lang, fm, p);
            if let Ok((n, q, f)) = node(s, lang, fm, p) {
                lemma_astro_body(
                    s,
                    lang,
                    f,
                    q,
                    depth,
                    q,
                    crate::tree::astro_append(crate::tree::astro_flush(s, parts, start, p), n),
                );
            }
        } else {
            lemma_astro_body(s, lang, fm, p + 1, depth, start, parts);
        }
    }
}

pub(crate) proof fn lemma_astro_expr(s: Seq<u8>, lang: Language, fm: bool, p: int)
    requires
        0 <= p <= s.len(),
    ensures
        astro_expr(s, lang, fm, p) matches Ok((_, q, _)) ==> ahead(s, p, q),
    decreases s.len() - p, 0int,
{
    if at(s, p, '{' as u8) {
        lemma_astro_body(s, lang, fm, p + 1, 0, p + 1, Seq::empty());
    }
}

/// The error is not that an element was expected.
pub open spec fn other_than_element<T>(r: Result<T, crate::error::SyntaxError>) -> bool {
    r matches Err(e) ==> e.kind != SyntaxErrorKind::ExpectElement
}

pub(crate) proof fn lemma_open_tag_expects(
    s: Seq<u8>,
    lang: Language,
    p: int,
    acc: Seq<Attribute>,
    same_line: bool,
)
    requires
        0 <= p <= s.len(),
    ensures
        other_than_element(open_tag(s, lang, p, acc, same_line)),
    decreases s.len() - p,
{
    reveal(open_tag);
    if at(s, p, '/' as u8) {
    } else if at(s, p, '>' as u8) {
    } else if at(s, p, '\n' as u8) {
        lemma_open_tag_expects(s, lang, p + 1, acc, same_line && acc.len() > 0);
    } else if class_at(s, p, CharClass::Whitespace) {
        lemma_open_tag_expects(s, lang, p + 1, acc, same_line);
    } else {
        lemma_attr(s, lang, p);
        if let Ok((a, q)) = attr(s, lang, p) {
            lemma_open_tag_expects(s, lang, q, acc.push(a), same_line);
        }
    }
}

pub(crate) proof fn lemma_leaves_expect(s: Seq<u8>, lang: Language, fm: bool, p: int, tag: Span)
    ensures
        other_than_element(tag_name(s, lang, p)),
        other_than_element(close_tag(s, lang, p, tag)),
        other_than_element(comment(s, p)),
        other_than_element(jinja_comment(s, p)),
        other_than_element(jinja_tag(s, p)),
        other_than_element(mustache(s, p)),
        other_than_element(text_node(s, lang, fm, p)),
        other_than_element(svelte_at_tag(s, p)),
        other_than_element(svelte_interpolation(s, p)),
        other_than_element(front_matter(s, p)),
{
    reveal(tag_name);
    reveal(close_tag);
    reveal(comment);
    reveal(jinja_comment);
    reveal(jinja_tag);
    reveal(mustache);
    reveal(text_node);
    reveal(svelte_at_tag);
    reveal(svelte_interpolation);
    reveal(front_matter);
}

/// Below the end of the source no node fails for want of an element: one
/// construct starts at every offset, and whatever fails inside it fails
/// with an error of its own.
pub proof fn lemma_node_expects_element_only_at_end(s: Seq<u8>, lang: Language, fm: bool, p: int)
    requires
        0 <= p < s.len(),
    ensures
        other_than_element(node(s, lang, fm, p)),
    decreases s.len() - p, 2int,
{
    reveal(branch);
    lemma_leaves_expect(s, lang, fm, p, Span { start: 0, end: 0 });
    lemma_delimited_leaves(s, p);
    match branch(s, lang, fm, p) {
        Branch::Element => {
            lemma_element_expects(s, lang, fm, p);
        },
        Branch::VentoTagOrBlock => {
            if let Ok((tag, q)) = mustache(s, p) {
                lemma_vento_after_expects(s, lang, fm, q, tag);
            }
        },
        Branch::JinjaTagOrBlock => {
            if let Ok((tag, q)) = jinja_tag(s, p) {
                lemma_jinja_after_expects(s, lang, fm, q, tag);
            }
        },
        Branch::AstroExpr => {
            lemma_astro_body_expects(s, lang, fm, p + 1, 0, p + 1, Seq::empty());
        },
        _ => {},
    }
}

/// Reading the root never fails for want of an element.
pub proof fn lemma_root_expects(s: Seq<u8>, lang: Language, fm: bool, p: int, acc: Seq<NodeModel>)
    requires
        0 <= p <= s.len(),
    ensures
        other_than_element(root(s, lang, fm, p, acc)),
    decreases s.len() - p, 3int,
{
    if p < s.len() {
        lemma_node_expects_element_only_at_end(s, lang, fm, p);
        lemma_node_advances(s, lang, fm, p);
        if let Ok((n, q, f)) = node(s, lang, fm, p) {
            lemma_root_expects(s, lang, f, q, acc.push(n));
        }
    }
}

pub(crate) proof fn lemma_block_children_expects(
    s: Seq<u8>,
    lang: Language,
    fm: bool,
    p: int,
    kind: BlockKind,
    acc: Seq<NodeModel>,
)
    requires
        0 <= p <= s.len(),
    ensures
        other_than_element(block_children(s, lang, fm, p, kind, acc)),
    decreases s.len() - p, 3int,
{
    if p < s.len() && !kind.ends_at(s, p) {
        lemma_node_expects_element_only_at_end(s, lang, fm, p);
        lemma_node_advances(s, lang, fm, p);
        if let Ok((n, q, f)) = node(s, lang, fm, p) {
            lemma_block_children_expects(s, lang, f, q, kind, acc.push(n));
        }
    }
}

pub(crate) proof fn lemma_element_children_expects(
    s: Seq<u8>,
    lang: Language,
    fm: bool,
    p: int,
    tag: Span,
    raw: bool,
    acc: Seq<NodeModel>,
)
    requires
        0 <= p <= s.len(),
    ensures
        other_than_element(element_children(s, lang, fm, p, tag, raw, acc)),
    decreases s.len() - p, 3int,
{
    lemma_leaves_expect(s, lang, fm, p, tag);
    if p < s.len() {
        if at(s, p, '<' as u8) && at(s, p + 1, '/' as u8) {
        } else if raw && !at(s, p, '<' as u8) {
            lemma_raw_text_node(s, p, tag);
            let q = raw_text_node(s, p, tag).1;
            lemma_element_children_expects(
                s,
                lang,
                fm,
                q,
                tag,
                raw,
                acc.push(NodeModel::TextNode(raw_text_node(s, p, tag).0)),
            );
        } else {
            lemma_node_expects_element_only_at_end(s, lang, fm, p);
            lemma_node_advances(s, lang, fm, p);
            if let Ok((n, q, f)) = node(s, lang, fm, p) {
                lemma_element_children_expects(s, lang, f, q, tag, raw, acc.push(n));
            }
        }
    }
}

pub(crate) proof fn lemma_element_expects(s: Seq<u8>, lang: Language, fm: bool, p: int)
    requires
        0 <= p <= s.len(),
        at(s, p, '<' as u8),
    ensures
        other_than_element(element(s, lang, fm, p)),
    decreases s.len() - p, 0int,
{
    lemma_leaves_expect(s, lang, fm, p + 1, Span { start: 0, end: 0 });
    lemma_tag_name(s, lang, p + 1);
    if let Ok((tag, q)) = tag_name(s, lang, p + 1) {
        lemma_open_tag(s, lang, q, Seq::empty(), true);
        lemma_open_tag_expects(s, lang, q, Seq::empty(), true);
        if let Ok((open, q1)) = open_tag(s, lang, q, Seq::empty(), true) {
            lemma_raw_text_node(s, q1, tag);
            let raw = crate::names::spec_is_raw_text_tag(tag.text(s));
            let (first, q2) = raw_text_node(s, q1, tag);
            lemma_element_children_expects(
                s,
                lang,
                fm,
                if raw {
                    q2
                } else {
                    q1
                },
                tag,
                raw,
                if raw && first.raw.start < first.raw.end {
                    seq![NodeModel::TextNode(first)]
                } else {
                    Seq::empty()
                },
            );
        }
    }
}

pub(crate) proof fn lemma_jinja_after_expects(
    s: Seq<u8>,
    lang: Language,
    fm: bool,
    p: int,
    first: JinjaTag,
)
    requires
        0 <= p <= s.len(),
    ensures
        other_than_element(jinja_after(s, lang, fm, p, first)),
    decreases s.len() - p, 5int,
{
    lemma_jinja_body_expects(s, lang, fm, p, first, seq![JinjaPart::Tag(first)]);
}

pub(crate) proof fn lemma_jinja_body_expects(
    s: Seq<u8>,
    lang: Language,
    fm: bool,
    p: int,
    opener: JinjaTag,
    body: Seq<JinjaPart>,
)
    requires
        0 <= p <= s.len(),
    ensures
        other_than_element(jinja_body(s, lang, fm, p, opener, body)),
    decreases s.len() - p, 4int,
{
    lemma_block_children(s, lang, fm, p, BlockKind::Jinja, Seq::empty());
    lemma_block_children_expects(s, lang, fm, p, BlockKind::Jinja, Seq::empty());
    if let Ok((c, q, f)) = block_children(s, lang, fm, p, BlockKind::Jinja, Seq::empty()) {
        let body1 = if c.len() > 0 {
            body.push(JinjaPart::Children(c))
        } else {
            body
        };
        lemma_leaves_expect(s, lang, fm, q, Span { start: 0, end: 0 });
        lemma_delimited_leaves(s, q);
        if let Ok((next, r)) = jinja_tag(s, q) {
            lemma_jinja_body_expects(s, lang, f, r, opener, body1.push(JinjaPart::Tag(next)));
            lemma_jinja_after(s, lang, f, r, next);
            lemma_jinja_after_expects(s, lang, f, r, next);
            if let Ok((n, t, f1)) = jinja_after(s, lang, f, r, next) {
                lemma_jinja_body_expects(
                    s,
                    lang,
                    f1,
                    t,
                    opener,
                    body1.push(JinjaPart::Children(seq![n])),
                );
            }
        }
    }
}

pub(crate) proof fn lemma_vento_after_expects(
    s: Seq<u8>,
    lang: Language,
    fm: bool,
    p: int,
    first: Span,
)
    requires
        0 <= p <= s.len(),
    ensures
        other_than_element(vento_after(s, lang, fm, p, first)),
    decreases s.len() - p, 5int,
{
    lemma_vento_body_expects(
        s,
        lang,
        fm,
        p,
        first,
        seq![VentoPart::Tag(crate::ast::VentoTag { tag: first })],
    );
}

pub(crate) proof fn lemma_vento_body_expects(
    s: Seq<u8>,
    lang: Language,
    fm: bool,
    p: int,
    opener: Span,
    body: Seq<VentoPart>,
)
    requires
        0 <= p <= s.len(),
    ensures
        other_than_element(vento_body(s, lang, fm, p, opener, body)),
    decreases s.len() - p, 4int,
{
    lemma_block_children(s, lang, fm, p, BlockKind::Vento, Seq::empty());
    lemma_block_children_expects(s, lang, fm, p, BlockKind::Vento, Seq::empty());
    if let Ok((c, q, f)) = block_children(s, lang, fm, p, BlockKind::Vento, Seq::empty()) {
        let body1 = if c.len() > 0 {
            crate::tree::vento_append(body, c)
        } else {
            body
        };
        lemma_leaves_expect(s, lang, fm, q, Span { start: 0, end: 0 });
        lemma_delimited_leaves(s, q);
        if let Ok((next, r)) = mustache(s, q) {
            lemma_vento_body_expects(
                s,
                lang,
                f,
                r,
                opener,
                body1.push(VentoPart::Tag(crate::ast::VentoTag { tag: next })),
            );
            lemma_vento_after(s, lang, f, r, next);
            lemma_vento_after_expects(s, lang, f, r, next);
            if let Ok((n, t, f1)) = vento_after(s, lang, f, r, next) {
                lemma_vento_body_expects(
                    s,
                    lang,
                    f1,
                    t,
                    opener,
                    crate::tree::vento_append(body1, seq![n]),
                );
            }
        }
    }
}

pub(crate) proof fn lemma_astro_body_expects(
    s: Seq<u8>,
    lang: Language,
    fm: bool,
    p: int,
    depth: nat,
    start: int,
    parts: Seq<AstroPart>,
)
    requires
        0 <= p <= s.len(),
    ensures
        other_than_element(astro_body(s, lang, fm, p, depth, start, parts)),
    decreases s.len() - p, 3int,
{
    if p < s.len() {
        if s[p] == '{' as u8 {
            lemma_astro_body_expects(s, lang, fm, p + 1, depth + 1, start, parts);
        } else if s[p] == '}' as u8 {
            if depth > 0 {
                lemma_astro_body_expects(s, lang, fm, p + 1, (depth - 1) as nat, start, parts);
            }
        } else if s[p] == '<' as u8 && (class_at(s, p + 1, CharClass::TagName) || at(
            s,
            p + 1,
            '!' as u8,
        ) || at(s, p + 1, '>' as u8)) {
            lemma_node_expects_element_only_at_end(s, lang, fm, p);
            lemma_node_advances(s, lang, fm, p);
            if let Ok((n, q, f)) = node(s, lang, fm, p) {
                lemma_astro_body_expects(
                    s,
                    lang,
                    f,
                    q,
                    depth,
                    q,
                    crate::tree::astro_append(crate::tree::astro_flush(s, parts, start, p), n),
                );
            }
        } else {
            lemma_astro_body_expects(s, lang, fm, p + 1, depth, start, parts);
        }
    }
}

} // verus!

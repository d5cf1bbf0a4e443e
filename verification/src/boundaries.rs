//! What is read from a character boundary of a tidy source ends at a
//! character boundary, and every span of it lies between characters.

use vstd::prelude::*;
use vstd::string::StringSliceAdditionalSpecFns;
use crate::ast::Attribute;
use crate::chars::{
    ascii, astro_part_on_chars, astro_parts_on_chars, attrs_on_chars, await_block_on_chars,
    each_block_on_chars, element_on_chars, else_if_on_chars, else_ifs_on_chars, if_block_on_chars,
    jinja_body_on_chars, jinja_part_on_chars, key_block_on_chars, lemma_ascii_kw, node_on_chars,
    nodes_on_chars, OnChars, opt_nodes_on_chars, opt_on_chars, ready, starts_char, tidy,
    vento_body_on_chars, vento_part_on_chars,
};
use crate::error::SyntaxErrorKind;
use crate::laws::lemma_text_end_bounds;
use crate::leaf::{
    attr, attr_name, attr_value, await_expr, await_header, block_open, block_tag, braced_expr,
    close_tag, comment, delimited, doctype, each_expr, each_header, each_index, each_key, fence,
    front_matter, identifier, inside, jinja_comment, jinja_tag, mustache, name, open_tag,
    opt_binding, opt_value, raw_text_boundary, raw_text_end, raw_text_node, section,
    svelte_at_tag, svelte_binding, svelte_interpolation, tag_name, text_boundary, text_end,
    text_node, vue_name, vue_punct,
};
use crate::model::{AstroPart, ElseIfModel, JinjaPart, NodeModel, VentoPart};
use crate::parser::Language;
use crate::progress::{
    lemma_attr, lemma_inside, lemma_name, lemma_raw_text_end, lemma_skip_ws, lemma_svelte_binding,
    lemma_tag_name, lemma_until,
};
use crate::scan::{
    at, balanced, CharClass, class_at, find, has_lit, klen, lemma_find_bounds, lemma_prefix_len,
    lemma_run_end_bounds, lit_len, lit_len_fold, prefix_len, run_end, skip_ws,
    spec_is_ascii_whitespace, spec_same_byte, until,
};
use crate::span::Span;
use crate::tree::{
    astro_append, astro_body, astro_expr, astro_flush, block_children, BlockKind, Branch, branch,
    element, element_children, if_branches, jinja_after, jinja_body, node, root, section_children,
    svelte_await_block, svelte_block, svelte_each_block, svelte_if_block, svelte_key_block,
    vento_after, vento_append, vento_body,
};

verus! {

/// A run of bytes of one class ends at a character boundary.
pub(crate) proof fn lemma_run_chars(s: Seq<u8>, p: int, cl: CharClass)
    requires
        ready(s, p),
    ensures
        starts_char(s, run_end(s, p, cl)),
{
    lemma_run_end_bounds(s, p, cl);
    let e = run_end(s, p, cl);
    if e > p {
        assert(cl.has(s[e - 1]));
    }
}

/// The bytes of an ASCII pattern that stand in the source are ASCII there.
pub(crate) proof fn lemma_prefix_ascii(s: Seq<u8>, p: int, pat: Seq<u8>, fold: bool, i: int)
    requires
        0 <= p,
        0 <= i <= pat.len(),
        p + i <= s.len(),
        ascii(pat),
    ensures
        forall|j: int| i <= j < prefix_len(s, p, pat, fold, i) ==> #[trigger] s[p + j] < 0x80,
    decreases pat.len() - i,
{
    lemma_prefix_len(s, p, pat, fold, i);
    if i < pat.len() && p + i < s.len() && spec_same_byte(s[p + i], pat[i], fold) {
        lemma_prefix_ascii(s, p, pat, fold, i + 1);
        assert(pat[i] < 0x80);
        assert(s[p + i] < 0x80);
    }
}

/// What is read of an ASCII literal ends at a character boundary.
pub(crate) proof fn lemma_lit_chars(s: Seq<u8>, p: int, pat: Seq<u8>, fold: bool)
    requires
        ready(s, p),
        ascii(pat),
    ensures
        starts_char(s, p + prefix_len(s, p, pat, fold, 0)),
{
    lemma_prefix_len(s, p, pat, fold, 0);
    lemma_prefix_ascii(s, p, pat, fold, 0);
    let n = prefix_len(s, p, pat, fold, 0);
    if n > 0 {
        assert(s[p + (n - 1)] < 0x80);
    }
}

/// An ASCII pattern is found at a character boundary.
pub(crate) proof fn lemma_find_chars(s: Seq<u8>, p: int, pat: Seq<u8>)
    requires
        0 <= p <= s.len(),
        ascii(pat),
        pat.len() > 0,
    ensures
        starts_char(s, find(s, p, pat)),
{
    lemma_find_bounds(s, p, pat);
    let e = find(s, p, pat);
    if e < s.len() {
        lemma_prefix_ascii(s, e, pat, false, 0);
        assert(s[e + 0] < 0x80);
    }
}

pub(crate) proof fn lemma_until_chars(s: Seq<u8>, p: int, close: &str)
    requires
        ready(s, p),
        ascii(close.spec_bytes()),
        klen(close) > 0,
    ensures
        until(s, p, close).0.on_chars(s),
        starts_char(s, until(s, p, close).1),
{
    lemma_find_bounds(s, p, close.spec_bytes());
    lemma_find_chars(s, p, close.spec_bytes());
    lemma_lit_chars(s, find(s, p, close.spec_bytes()), close.spec_bytes(), false);
}

pub(crate) proof fn lemma_balanced_chars(s: Seq<u8>, p: int, open: u8, close: u8, depth: nat)
    requires
        0 <= p <= s.len(),
    ensures
        balanced(s, p, open, close, depth) matches Some(e) ==> p <= e < s.len() && s[e] == close,
    decreases s.len() - p,
{
    if p < s.len() {
        if s[p] == open {
            lemma_balanced_chars(s, p + 1, open, close, depth + 1);
        } else if s[p] == close {
            if depth > 0 {
                lemma_balanced_chars(s, p + 1, open, close, (depth - 1) as nat);
            }
        } else {
            lemma_balanced_chars(s, p + 1, open, close, depth);
        }
    }
}

pub(crate) proof fn lemma_name_chars(s: Seq<u8>, p: int, cl: CharClass, kind: SyntaxErrorKind)
    requires
        ready(s, p),
    ensures
        name(s, p, cl, kind) matches Ok((v, q)) ==> v.on_chars(s) && starts_char(s, q),
{
    lemma_name(s, p, cl, kind);
    lemma_run_chars(s, p, cl);
}

pub(crate) proof fn lemma_tag_name_chars(s: Seq<u8>, lang: Language, p: int)
    requires
        ready(s, p),
    ensures
        tag_name(s, lang, p) matches Ok((v, q)) ==> v.on_chars(s) && starts_char(s, q),
{
    reveal(tag_name);
    lemma_name_chars(s, p, CharClass::TagName, SyntaxErrorKind::ExpectTagName);
}

/// The literals of one byte that close a quoted value.
pub(crate) proof fn lemma_quotes()
    ensures
        ascii("\"".spec_bytes()),
        klen("\"") == 1,
        ascii("'".spec_bytes()),
        klen("'") == 1,
{
    reveal_strlit("\"");
    reveal_strlit("'");
    lemma_ascii_kw("\"");
    lemma_ascii_kw("'");
}

pub(crate) proof fn lemma_attr_value_chars(s: Seq<u8>, p: int)
    requires
        ready(s, p),
    ensures
        attr_value(s, p) matches Ok((v, q)) ==> v.on_chars(s) && starts_char(s, q),
{
    lemma_name_chars(s, p, CharClass::AttrValue, SyntaxErrorKind::ExpectAttrValue);
    lemma_quotes();
    if p < s.len() && s[p] < 0x80 {
        lemma_until_chars(s, p + 1, "\"");
        lemma_until_chars(s, p + 1, "'");
    }
}

pub(crate) proof fn lemma_skip_ws_chars(s: Seq<u8>, p: int)
    requires
        ready(s, p),
    ensures
        ready(s, skip_ws(s, p)),
        p <= skip_ws(s, p),
{
    lemma_run_chars(s, p, CharClass::Whitespace);
    lemma_skip_ws(s, p);
}

pub(crate) proof fn lemma_opt_value_chars(s: Seq<u8>, p: int)
    requires
        ready(s, p),
    ensures
        opt_value(s, p) matches Ok((v, q)) ==> opt_on_chars(v, s) && starts_char(s, q),
{
    lemma_skip_ws_chars(s, p);
    let q = skip_ws(s, p);
    if at(s, q, '=' as u8) {
        lemma_skip_ws_chars(s, q + 1);
        lemma_attr_value_chars(s, skip_ws(s, q + 1));
    }
}

pub(crate) proof fn lemma_braced_expr_chars(s: Seq<u8>, p: int)
    requires
        ready(s, p),
    ensures
        braced_expr(s, p).0.on_chars(s),
        ready(s, braced_expr(s, p).1),
        p <= braced_expr(s, p).1,
{
    reveal(braced_expr);
    lemma_skip_ws_chars(s, p);
    lemma_balanced_chars(s, skip_ws(s, p), '{' as u8, '}' as u8, 0);
}

pub(crate) proof fn lemma_inside_chars(s: Seq<u8>, p: int, open: u8, close: u8, inclusive: bool)
    requires
        ready(s, p),
        open < 0x80,
        close < 0x80,
    ensures
        inside(s, p, open, close, inclusive) matches Ok((v, q)) ==> v.on_chars(s) && starts_char(
            s,
            q,
        ),
{
    if at(s, p, open) {
        lemma_balanced_chars(s, p + 1, open, close, 0);
    }
}

pub(crate) proof fn lemma_svelte_binding_chars(s: Seq<u8>, p: int)
    requires
        ready(s, p),
    ensures
        svelte_binding(s, p) matches Ok((v, q)) ==> v.on_chars(s) && ready(s, q) && p < q,
{
    lemma_svelte_binding(s, p);
    lemma_inside_chars(s, p, '{' as u8, '}' as u8, true);
    lemma_inside_chars(s, p, '[' as u8, ']' as u8, true);
    lemma_name_chars(s, p, CharClass::Identifier, SyntaxErrorKind::ExpectIdentifier);
}

pub(crate) proof fn lemma_attr_chars(s: Seq<u8>, lang: Language, p: int)
    requires
        ready(s, p),
    ensures
        attr(s, lang, p) matches Ok((a, q)) ==> a.on_chars(s) && ready(s, q) && p < q,
{
    lemma_attr(s, lang, p);
    // native
    lemma_name_chars(s, p, CharClass::AttrName, SyntaxErrorKind::ExpectAttrName);
    if let Ok((_, q)) = attr_name(s, p) {
        lemma_name(s, p, CharClass::AttrName, SyntaxErrorKind::ExpectAttrName);
        lemma_opt_value_chars(s, q);
        // svelte and astro
        lemma_skip_ws_chars(s, q);
        let a = skip_ws(s, q);
        if at(s, a, '=' as u8) {
            lemma_skip_ws_chars(s, a + 1);
            let b = skip_ws(s, a + 1);
            if at(s, b, '{' as u8) {
                lemma_braced_expr_chars(s, b + 1);
            }
        }
    }
    if at(s, p, '{' as u8) {
        lemma_braced_expr_chars(s, p + 1);
    }
    // vue
    if vue_punct(s, p) || (at(s, p, 'v' as u8) && at(s, p + 1, '-' as u8)) {
        if !vue_punct(s, p) {
            lemma_name(s, p + 2, CharClass::Identifier, SyntaxErrorKind::ExpectIdentifier);
            lemma_name_chars(s, p + 2, CharClass::Identifier, SyntaxErrorKind::ExpectIdentifier);
        }
        if let Ok((_, q)) = vue_name(s, p) {
            lemma_opt_value_chars(s, q);
            lemma_name(s, q, CharClass::AttrName, SyntaxErrorKind::ExpectAttrName);
            lemma_name_chars(s, q, CharClass::AttrName, SyntaxErrorKind::ExpectAttrName);
            if let Ok((_, r)) = attr_name(s, q) {
                lemma_opt_value_chars(s, r);
            }
        }
    }
}

pub(crate) proof fn lemma_open_tag_chars(
    s: Seq<u8>,
    lang: Language,
    p: int,
    acc: Seq<Attribute>,
    same_line: bool,
)
    requires
        ready(s, p),
        attrs_on_chars(acc, s),
    ensures
        open_tag(s, lang, p, acc, same_line) matches Ok((t, q)) ==> attrs_on_chars(t.attrs, s)
            && ready(s, q) && p < q,
    decreases s.len() - p,
{
    reveal(open_tag);
    if at(s, p, '/' as u8) {
    } else if at(s, p, '>' as u8) {
    } else if at(s, p, '\n' as u8) {
        lemma_open_tag_chars(s, lang, p + 1, acc, same_line && acc.len() > 0);
    } else if class_at(s, p, CharClass::Whitespace) {
        lemma_open_tag_chars(s, lang, p + 1, acc, same_line);
    } else {
        lemma_attr_chars(s, lang, p);
        if let Ok((a, q)) = attr(s, lang, p) {
            assert forall|i: int| 0 <= i < acc.push(a).len() implies (#[trigger] acc.push(
                a,
            )[i]).on_chars(s) by {
                if i < acc.len() {
                    assert(acc.push(a)[i] == acc[i]);
                }
            }
            lemma_open_tag_chars(s, lang, q, acc.push(a), same_line);
        }
    }
}

pub(crate) proof fn lemma_text_end_chars(s: Seq<u8>, lang: Language, fm: bool, p: int)
    requires
        0 <= p <= s.len(),
    ensures
        starts_char(s, text_end(s, lang, fm, p)),
    decreases s.len() - p,
{
    if p < s.len() && !text_boundary(s, lang, fm, p) {
        lemma_text_end_chars(s, lang, fm, p + 1);
    }
}

pub(crate) proof fn lemma_text_node_chars(s: Seq<u8>, lang: Language, fm: bool, p: int)
    requires
        ready(s, p),
    ensures
        text_node(s, lang, fm, p) matches Ok((t, q)) ==> t.on_chars(s) && ready(s, q) && p < q,
{
    reveal(text_node);
    if p < s.len() {
        lemma_text_end_bounds(s, lang, fm, p + 1);
        lemma_text_end_chars(s, lang, fm, p + 1);
    }
}

pub(crate) proof fn lemma_raw_text_end_chars(s: Seq<u8>, p: int, tag: Seq<u8>)
    requires
        0 <= p <= s.len(),
    ensures
        starts_char(s, raw_text_end(s, p, tag)),
    decreases s.len() - p,
{
    if p < s.len() && !raw_text_boundary(s, p, tag) {
        lemma_raw_text_end_chars(s, p + 1, tag);
    }
}

pub(crate) proof fn lemma_raw_text_node_chars(s: Seq<u8>, p: int, tag: Span)
    requires
        ready(s, p),
    ensures
        raw_text_node(s, p, tag).0.on_chars(s),
        ready(s, raw_text_node(s, p, tag).1),
        p <= raw_text_node(s, p, tag).1,
{
    reveal(raw_text_node);
    lemma_raw_text_end(s, p, tag.text(s));
    lemma_raw_text_end_chars(s, p, tag.text(s));
}

pub(crate) proof fn lemma_delimited_chars(
    s: Seq<u8>,
    p: int,
    open: &str,
    close: &str,
    kind: SyntaxErrorKind,
)
    requires
        ready(s, p),
        ascii(open.spec_bytes()),
        ascii(close.spec_bytes()),
        klen(open) > 0,
        klen(close) > 0,
    ensures
        delimited(s, p, open, close, kind) matches Ok((v, q)) ==> v.on_chars(s) && ready(s, q)
            && p < q,
{
    lemma_prefix_len(s, p, open.spec_bytes(), false, 0);
    lemma_lit_chars(s, p, open.spec_bytes(), false);
    if has_lit(s, p, open) {
        lemma_until(s, p + klen(open), close);
        lemma_until_chars(s, p + klen(open), close);
    }
}

pub(crate) proof fn lemma_delimited_leaves_chars(s: Seq<u8>, p: int)
    requires
        ready(s, p),
    ensures
        comment(s, p) matches Ok((v, q)) ==> v.raw.on_chars(s) && ready(s, q) && p < q,
        jinja_comment(s, p) matches Ok((v, q)) ==> v.raw.on_chars(s) && ready(s, q) && p < q,
        jinja_tag(s, p) matches Ok((v, q)) ==> v.content.on_chars(s) && ready(s, q) && p < q,
        mustache(s, p) matches Ok((v, q)) ==> v.on_chars(s) && ready(s, q) && p < q,
{
    reveal(comment);
    reveal(jinja_comment);
    reveal(jinja_tag);
    reveal(mustache);
    reveal_strlit("<!--");
    reveal_strlit("-->");
    reveal_strlit("{#");
    reveal_strlit("#}");
    reveal_strlit("{%");
    reveal_strlit("%}");
    reveal_strlit("{{");
    reveal_strlit("}}");
    lemma_ascii_kw("<!--");
    lemma_ascii_kw("-->");
    lemma_ascii_kw("{#");
    lemma_ascii_kw("#}");
    lemma_ascii_kw("{%");
    lemma_ascii_kw("%}");
    lemma_ascii_kw("{{");
    lemma_ascii_kw("}}");
    lemma_delimited_chars(s, p, "<!--", "-->", SyntaxErrorKind::ExpectComment);
    lemma_delimited_chars(s, p, "{#", "#}", SyntaxErrorKind::ExpectComment);
    lemma_delimited_chars(s, p, "{%", "%}", SyntaxErrorKind::ExpectJinjaTag);
    lemma_delimited_chars(s, p, "{{", "}}", SyntaxErrorKind::ExpectMustacheInterpolation);
}

pub(crate) proof fn lemma_doctype_chars(s: Seq<u8>, p: int)
    requires
        ready(s, p),
    ensures
        doctype(s, p) matches Ok((_, q)) ==> ready(s, q) && p < q,
{
    reveal(doctype);
    crate::progress::lemma_doctype(s, p);
    reveal_strlit("<!doctype");
    reveal_strlit("html");
    lemma_ascii_kw("<!doctype");
    lemma_ascii_kw("html");
    lemma_prefix_len(s, p, "<!doctype".spec_bytes(), true, 0);
    lemma_lit_chars(s, p, "<!doctype".spec_bytes(), true);
    let a = p + lit_len_fold(s, p, "<!doctype");
    lemma_skip_ws_chars(s, a);
    let b = skip_ws(s, a);
    lemma_prefix_len(s, b, "html".spec_bytes(), true, 0);
    lemma_lit_chars(s, b, "html".spec_bytes(), true);
    let c = b + lit_len_fold(s, b, "html");
    lemma_skip_ws_chars(s, c);
}

pub(crate) proof fn lemma_svelte_leaves_chars(s: Seq<u8>, p: int)
    requires
        ready(s, p),
    ensures
        svelte_at_tag(s, p) matches Ok((v, q)) ==> v.on_chars(s) && ready(s, q) && p < q,
        svelte_interpolation(s, p) matches Ok((v, q)) ==> v.expr.on_chars(s) && ready(s, q) && p
            < q,
{
    reveal(svelte_at_tag);
    reveal(svelte_interpolation);
    crate::progress::lemma_svelte_leaves(s, p);
    if at(s, p, '{' as u8) {
        lemma_braced_expr_chars(s, p + 1);
    }
    reveal_strlit("{@");
    lemma_ascii_kw("{@");
    lemma_prefix_len(s, p, "{@".spec_bytes(), false, 0);
    lemma_lit_chars(s, p, "{@".spec_bytes(), false);
    if has_lit(s, p, "{@") {
        lemma_name(s, p + 2, CharClass::Identifier, SyntaxErrorKind::ExpectIdentifier);
        lemma_name_chars(s, p + 2, CharClass::Identifier, SyntaxErrorKind::ExpectIdentifier);
        if let Ok((_, q)) = identifier(s, p + 2) {
            lemma_skip_ws_chars(s, q);
            lemma_braced_expr_chars(s, skip_ws(s, q));
        }
    }
}

/// The fence that is found is `---`.
pub open spec fn fence_is_dash(s: Seq<u8>, p: int, stack: Seq<u8>) -> bool {
    fence(s, p, stack) matches Some(e) ==> p <= e && e + 3 <= s.len() && s[e] == '-' as u8 && s[e
        + 1] == '-' as u8 && s[e + 2] == '-' as u8
}

pub(crate) proof fn lemma_fence_chars(s: Seq<u8>, p: int)
    requires
        0 <= p <= s.len(),
    ensures
        forall|stack: Seq<u8>| #[trigger] fence_is_dash(s, p, stack),
    decreases s.len() - p,
{
    if p < s.len() {
        lemma_fence_chars(s, p + 1);
        if p + 2 <= s.len() {
            lemma_fence_chars(s, p + 2);
        }
        assert forall|stack: Seq<u8>| #[trigger] fence_is_dash(s, p, stack) by {
            let c = s[p];
            assert(fence_is_dash(s, p + 1, stack));
            assert(fence_is_dash(s, p + 1, stack.drop_last()));
            assert(fence_is_dash(s, p + 1, stack.push(c)));
            assert(fence_is_dash(s, p + 1, stack.push('{' as u8)));
            if p + 2 <= s.len() {
                assert(fence_is_dash(s, p + 2, stack));
                assert(fence_is_dash(s, p + 2, stack.drop_last()));
                assert(fence_is_dash(s, p + 2, stack.push('$' as u8)));
                assert(fence_is_dash(s, p + 2, stack.push(s[p + 1])));
            }
        }
    }
}

pub(crate) proof fn lemma_front_matter_chars(s: Seq<u8>, p: int)
    requires
        ready(s, p),
    ensures
        front_matter(s, p) matches Ok((v, q)) ==> v.raw.on_chars(s) && ready(s, q) && p < q,
{
    reveal(front_matter);
    reveal_strlit("---");
    lemma_ascii_kw("---");
    lemma_prefix_len(s, p, "---".spec_bytes(), false, 0);
    lemma_lit_chars(s, p, "---".spec_bytes(), false);
    if has_lit(s, p, "---") {
        lemma_fence_chars(s, p + 3);
        assert(fence_is_dash(s, p + 3, Seq::empty()));
    }
}

pub(crate) proof fn lemma_block_tags_chars(s: Seq<u8>, p: int, kw: &str)
    requires
        ready(s, p),
        ascii(kw.spec_bytes()),
    ensures
        block_open(s, p, kw) matches Ok(a) ==> ready(s, a) && p < a,
        block_tag(s, p, kw) matches Ok(a) ==> ready(s, a) && p < a,
{
    reveal(block_open);
    reveal(block_tag);
    lemma_prefix_len(s, p, kw.spec_bytes(), false, 0);
    lemma_lit_chars(s, p, kw.spec_bytes(), false);
    lemma_skip_ws_chars(s, p + lit_len(s, p, kw));
}

/// The literals with which the tags of Svelte blocks start.
pub(crate) proof fn lemma_svelte_keywords()
    ensures
        ascii("{#if".spec_bytes()),
        ascii("{#each".spec_bytes()),
        ascii("{#await".spec_bytes()),
        ascii("{#key".spec_bytes()),
        ascii("{:else".spec_bytes()),
        ascii("{:then".spec_bytes()),
        ascii("{:catch".spec_bytes()),
        ascii("{/each".spec_bytes()),
        ascii("{/await".spec_bytes()),
        ascii("{/key".spec_bytes()),
        ascii("if".spec_bytes()),
        ascii("else".spec_bytes()),
        ascii("as".spec_bytes()),
        ascii("then".spec_bytes()),
        ascii("catch".spec_bytes()),
{
    reveal_strlit("{#if");
    reveal_strlit("{#each");
    reveal_strlit("{#await");
    reveal_strlit("{#key");
    reveal_strlit("{:else");
    reveal_strlit("{:then");
    reveal_strlit("{:catch");
    reveal_strlit("{/each");
    reveal_strlit("{/await");
    reveal_strlit("{/key");
    reveal_strlit("if");
    reveal_strlit("else");
    reveal_strlit("as");
    reveal_strlit("then");
    reveal_strlit("catch");
    lemma_ascii_kw("{#if");
    lemma_ascii_kw("{#each");
    lemma_ascii_kw("{#await");
    lemma_ascii_kw("{#key");
    lemma_ascii_kw("{:else");
    lemma_ascii_kw("{:then");
    lemma_ascii_kw("{:catch");
    lemma_ascii_kw("{/each");
    lemma_ascii_kw("{/await");
    lemma_ascii_kw("{/key");
    lemma_ascii_kw("if");
    lemma_ascii_kw("else");
    lemma_ascii_kw("as");
    lemma_ascii_kw("then");
    lemma_ascii_kw("catch");
}

pub(crate) proof fn lemma_each_expr_chars(s: Seq<u8>, p: int, end: int)
    requires
        0 <= p <= s.len() <= usize::MAX,
        tidy(s),
    ensures
        ({
            let (e, q) = each_expr(s, p, end);
            &&& p <= q <= s.len()
            &&& starts_char(s, q)
            &&& e == end || p <= e <= q
            &&& q < s.len() ==> starts_char(s, e)
        }),
    decreases s.len() - p,
{
    lemma_svelte_keywords();
    if p < s.len() {
        if spec_is_ascii_whitespace(s[p]) {
            lemma_skip_ws(s, p + 1);
            let q = skip_ws(s, p + 1);
            assert(starts_char(s, p + 1));
            lemma_run_chars(s, p + 1, CharClass::Whitespace);
            lemma_prefix_len(s, q, "as".spec_bytes(), false, 0);
            lemma_lit_chars(s, q, "as".spec_bytes(), false);
            if !has_lit(s, q, "as") {
                lemma_each_expr_chars(s, q, p);
            }
        } else {
            lemma_each_expr_chars(s, p + 1, p);
        }
    }
}

pub(crate) proof fn lemma_await_expr_chars(s: Seq<u8>, p: int, depth: nat, end: int)
    requires
        0 <= p <= s.len() <= usize::MAX,
        tidy(s),
    ensures
        ({
            let (e, q) = await_expr(s, p, depth, end);
            &&& p <= q <= s.len()
            &&& starts_char(s, q)
            &&& e == end || p <= e <= q
            &&& q < s.len() ==> starts_char(s, e)
        }),
    decreases s.len() - p,
{
    if p < s.len() {
        if spec_is_ascii_whitespace(s[p]) {
            lemma_skip_ws(s, p + 1);
            let q = skip_ws(s, p + 1);
            assert(starts_char(s, p + 1));
            lemma_run_chars(s, p + 1, CharClass::Whitespace);
            if !(depth == 0 && (has_lit(s, q, "then") || has_lit(s, q, "catch"))) {
                lemma_await_expr_chars(s, q, depth, end);
            }
        } else if s[p] == '{' as u8 {
            lemma_await_expr_chars(s, p + 1, depth + 1, p);
        } else if s[p] == '}' as u8 {
            if depth > 0 {
                lemma_await_expr_chars(s, p + 1, (depth - 1) as nat, p);
            }
        } else {
            lemma_await_expr_chars(s, p + 1, depth, p);
        }
    }
}

pub(crate) proof fn lemma_opt_binding_chars(s: Seq<u8>, p: int, kw: &str)
    requires
        ready(s, p),
        ascii(kw.spec_bytes()),
    ensures
        opt_binding(s, p, kw) matches Ok((v, q)) ==> opt_on_chars(v, s) && ready(s, q) && p <= q,
{
    lemma_skip_ws_chars(s, p);
    let a = skip_ws(s, p);
    lemma_prefix_len(s, a, kw.spec_bytes(), false, 0);
    lemma_lit_chars(s, a, kw.spec_bytes(), false);
    let b = a + lit_len(s, a, kw);
    lemma_skip_ws_chars(s, b);
    lemma_svelte_binding_chars(s, skip_ws(s, b));
}

pub(crate) proof fn lemma_each_header_chars(s: Seq<u8>, p: int)
    requires
        ready(s, p),
    ensures
        each_header(s, p) matches Ok((h, q)) ==> h.on_chars(s) && ready(s, q) && p < q,
{
    reveal(each_header);
    lemma_svelte_keywords();
    lemma_block_tags_chars(s, p, "{#each");
    if let Ok(a) = block_open(s, p, "{#each") {
        lemma_skip_ws_chars(s, a);
        let start = skip_ws(s, a);
        lemma_each_expr_chars(s, start, start);
        let (end, q) = each_expr(s, start, start);
        lemma_skip_ws_chars(s, q);
        lemma_svelte_binding_chars(s, skip_ws(s, q));
        if let Ok((_, q1)) = svelte_binding(s, skip_ws(s, q)) {
            lemma_skip_ws_chars(s, q1);
            let w = skip_ws(s, q1);
            if at(s, w, ',' as u8) {
                lemma_skip_ws_chars(s, w + 1);
                lemma_name(
                    s,
                    skip_ws(s, w + 1),
                    CharClass::Identifier,
                    SyntaxErrorKind::ExpectIdentifier,
                );
                lemma_name_chars(
                    s,
                    skip_ws(s, w + 1),
                    CharClass::Identifier,
                    SyntaxErrorKind::ExpectIdentifier,
                );
            }
            if let Ok((_, q2)) = each_index(s, q1) {
                lemma_skip_ws_chars(s, q2);
                lemma_inside(s, skip_ws(s, q2), '(' as u8, ')' as u8, false);
                lemma_inside_chars(s, skip_ws(s, q2), '(' as u8, ')' as u8, false);
                if let Ok((_, q3)) = each_key(s, q2) {
                    lemma_skip_ws_chars(s, q3);
                }
            }
        }
    }
}

pub(crate) proof fn lemma_await_header_chars(s: Seq<u8>, p: int)
    requires
        ready(s, p),
    ensures
        await_header(s, p) matches Ok((h, q)) ==> h.on_chars(s) && ready(s, q) && p < q,
{
    reveal(await_header);
    lemma_svelte_keywords();
    lemma_block_tags_chars(s, p, "{#await");
    if let Ok(a) = block_open(s, p, "{#await") {
        lemma_skip_ws_chars(s, a);
        let start = skip_ws(s, a);
        lemma_await_expr_chars(s, start, 0, start);
        let (end, q) = await_expr(s, start, 0, start);
        lemma_opt_binding_chars(s, q, "then");
        if let Ok((_, q1)) = opt_binding(s, q, "then") {
            lemma_opt_binding_chars(s, q1, "catch");
            if let Ok((_, q2)) = opt_binding(s, q1, "catch") {
                lemma_skip_ws_chars(s, q2);
            }
        }
    }
}

pub(crate) proof fn lemma_section_chars(
    s: Seq<u8>,
    p: int,
    kw: &str,
    optional: bool,
    kind: SyntaxErrorKind,
)
    requires
        ready(s, p),
        ascii(kw.spec_bytes()),
    ensures
        section(s, p, kw, optional, kind) matches Ok((x, q)) ==> ready(s, q) && p <= q && (x is Some
            ==> p < q && opt_on_chars(x->Some_0, s)),
{
    reveal(section);
    lemma_prefix_len(s, p, kw.spec_bytes(), false, 0);
    lemma_lit_chars(s, p, kw.spec_bytes(), false);
    if has_lit(s, p, kw) {
        lemma_skip_ws_chars(s, p + klen(kw));
        let w = skip_ws(s, p + klen(kw));
        lemma_svelte_binding_chars(s, w);
        if let Ok((_, q)) = svelte_binding(s, w) {
            lemma_skip_ws_chars(s, q);
        }
    }
}

pub(crate) proof fn lemma_close_tag_chars(s: Seq<u8>, lang: Language, p: int, tag: Span)
    requires
        ready(s, p),
        at(s, p, '<' as u8),
        at(s, p + 1, '/' as u8),
    ensures
        close_tag(s, lang, p, tag) matches Ok(q) ==> ready(s, q) && p < q,
{
    reveal(close_tag);
    lemma_tag_name(s, lang, p + 2);
    lemma_tag_name_chars(s, lang, p + 2);
    if let Ok((_, q)) = tag_name(s, lang, p + 2) {
        lemma_skip_ws_chars(s, q);
    }
}

pub(crate) proof fn lemma_nodes_on_chars_push(ns: Seq<NodeModel>, n: NodeModel, s: Seq<u8>)
    requires
        nodes_on_chars(ns, s),
        node_on_chars(n, s),
    ensures
        nodes_on_chars(ns.push(n), s),
        nodes_on_chars(seq![n], s),
        nodes_on_chars(Seq::empty(), s),
{
    assert forall|i: int| 0 <= i < ns.push(n).len() implies node_on_chars(
        #[trigger] ns.push(n)[i],
        s,
    ) by {
        if i < ns.len() {
            assert(ns.push(n)[i] == ns[i]);
        }
    }
}

pub(crate) proof fn lemma_nodes_on_chars_add(a: Seq<NodeModel>, b: Seq<NodeModel>, s: Seq<u8>)
    requires
        nodes_on_chars(a, s),
        nodes_on_chars(b, s),
    ensures
        nodes_on_chars(a + b, s),
{
    assert forall|i: int| 0 <= i < (a + b).len() implies node_on_chars(#[trigger] (a + b)[i], s) by {
        if i < a.len() {
            assert((a + b)[i] == a[i]);
        } else {
            assert((a + b)[i] == b[i - a.len()]);
        }
    }
}

pub(crate) proof fn lemma_jinja_body_on_chars_push(b: Seq<JinjaPart>, part: JinjaPart, s: Seq<u8>)
    requires
        jinja_body_on_chars(b, s),
        jinja_part_on_chars(part, s),
    ensures
        jinja_body_on_chars(b.push(part), s),
        jinja_body_on_chars(seq![part], s),
{
    assert forall|i: int| 0 <= i < b.push(part).len() implies jinja_part_on_chars(
        #[trigger] b.push(part)[i],
        s,
    ) by {
        if i < b.len() {
            assert(b.push(part)[i] == b[i]);
        }
    }
}

pub(crate) proof fn lemma_vento_body_on_chars_push(b: Seq<VentoPart>, part: VentoPart, s: Seq<u8>)
    requires
        vento_body_on_chars(b, s),
        vento_part_on_chars(part, s),
    ensures
        vento_body_on_chars(b.push(part), s),
        vento_body_on_chars(seq![part], s),
{
    assert forall|i: int| 0 <= i < b.push(part).len() implies vento_part_on_chars(
        #[trigger] b.push(part)[i],
        s,
    ) by {
        if i < b.len() {
            assert(b.push(part)[i] == b[i]);
        }
    }
}

pub(crate) proof fn lemma_vento_append_on_chars(b: Seq<VentoPart>, c: Seq<NodeModel>, s: Seq<u8>)
    requires
        vento_body_on_chars(b, s),
        nodes_on_chars(c, s),
    ensures
        vento_body_on_chars(vento_append(b, c), s),
{
    let out = vento_append(b, c);
    if b.len() > 0 && b.last() is Children {
        assert(vento_part_on_chars(b[b.len() - 1], s));
        lemma_nodes_on_chars_add(b.last()->Children_0, c, s);
        assert forall|i: int| 0 <= i < out.len() implies vento_part_on_chars(
            #[trigger] out[i],
            s,
        ) by {
            if i < b.len() - 1 {
                assert(out[i] == b[i]);
            }
        }
    } else {
        lemma_vento_body_on_chars_push(b, VentoPart::Children(c), s);
    }
}

pub(crate) proof fn lemma_astro_parts_on_chars_push(b: Seq<AstroPart>, part: AstroPart, s: Seq<u8>)
    requires
        astro_parts_on_chars(b, s),
        astro_part_on_chars(part, s),
    ensures
        astro_parts_on_chars(b.push(part), s),
{
    assert forall|i: int| 0 <= i < b.push(part).len() implies astro_part_on_chars(
        #[trigger] b.push(part)[i],
        s,
    ) by {
        if i < b.len() {
            assert(b.push(part)[i] == b[i]);
        }
    }
}

pub(crate) proof fn lemma_astro_last_on_chars(b: Seq<AstroPart>, n: NodeModel, s: Seq<u8>)
    requires
        astro_parts_on_chars(b, s),
        node_on_chars(n, s),
        b.len() > 0,
        b.last() is Template,
    ensures
        astro_parts_on_chars(
            b.drop_last().push(AstroPart::Template(b.last()->Template_0.push(n))),
            s,
        ),
{
    let out = b.drop_last().push(AstroPart::Template(b.last()->Template_0.push(n)));
    assert(astro_part_on_chars(b[b.len() - 1], s));
    lemma_nodes_on_chars_push(b.last()->Template_0, n, s);
    assert forall|i: int| 0 <= i < out.len() implies astro_part_on_chars(#[trigger] out[i], s) by {
        if i < b.len() - 1 {
            assert(out[i] == b[i]);
        }
    }
}

pub(crate) proof fn lemma_astro_append_on_chars(b: Seq<AstroPart>, n: NodeModel, s: Seq<u8>)
    requires
        astro_parts_on_chars(b, s),
        node_on_chars(n, s),
    ensures
        astro_parts_on_chars(astro_append(b, n), s),
{
    if b.len() > 0 && b.last() is Template {
        lemma_astro_last_on_chars(b, n, s);
    } else {
        lemma_nodes_on_chars_push(Seq::empty(), n, s);
        lemma_astro_parts_on_chars_push(b, AstroPart::Template(seq![n]), s);
    }
}

pub(crate) proof fn lemma_astro_flush_on_chars(b: Seq<AstroPart>, a: int, e: int, s: Seq<u8>)
    requires
        astro_parts_on_chars(b, s),
        0 <= a <= s.len() <= usize::MAX,
        0 <= e <= s.len(),
        starts_char(s, a),
        starts_char(s, e),
    ensures
        astro_parts_on_chars(astro_flush(s, b, a, e), s),
{
    if a >= e {
    } else if crate::leaf::all_ws(s, a, e) {
        if b.len() > 0 && b.last() is Template {
            lemma_astro_last_on_chars(b, NodeModel::TextNode(crate::leaf::text_of(s, a, e)), s);
        }
    } else {
        lemma_astro_parts_on_chars_push(b, AstroPart::Script(crate::span::span(a, e)), s);
    }
}

/// A node that is read from a character boundary of a tidy source ends at
/// a character boundary, and every span in it lies between characters.
pub proof fn lemma_node_on_chars(s: Seq<u8>, lang: Language, fm: bool, p: int)
    requires
        ready(s, p),
    ensures
        node(s, lang, fm, p) matches Ok((n, q, _)) ==> node_on_chars(n, s) && ready(s, q) && p < q,
    decreases s.len() - p, 2int,
{
    reveal(branch);
    lemma_delimited_leaves_chars(s, p);
    lemma_svelte_leaves_chars(s, p);
    lemma_text_node_chars(s, lang, fm, p);
    match branch(s, lang, fm, p) {
        Branch::Element => {
            lemma_element_chars(s, lang, fm, p);
        },
        Branch::CommentOrDoctype => {
            lemma_doctype_chars(s, p);
        },
        Branch::VentoTagOrBlock => {
            if let Ok((tag, q)) = mustache(s, p) {
                lemma_vento_after_chars(s, lang, fm, q, tag);
            }
        },
        Branch::SvelteBlock => {
            lemma_svelte_block_chars(s, lang, fm, p);
        },
        Branch::JinjaTagOrBlock => {
            if let Ok((tag, q)) = jinja_tag(s, p) {
                lemma_jinja_after_chars(s, lang, fm, q, tag);
            }
        },
        Branch::AstroExpr => {
            lemma_astro_expr_chars(s, lang, fm, p);
        },
        Branch::AstroFrontMatter => {
            lemma_front_matter_chars(s, p);
        },
        _ => {},
    }
}

/// Every span in the root of a tidy source lies between characters.
pub proof fn lemma_root_on_chars(s: Seq<u8>, lang: Language, fm: bool, p: int, acc: Seq<NodeModel>)
    requires
        ready(s, p),
        nodes_on_chars(acc, s),
    ensures
        root(s, lang, fm, p, acc) matches Ok((nodes, _, _)) ==> nodes_on_chars(nodes, s),
    decreases s.len() - p, 3int,
{
    if p < s.len() {
        lemma_node_on_chars(s, lang, fm, p);
        if let Ok((n, q, f)) = node(s, lang, fm, p) {
            lemma_nodes_on_chars_push(acc, n, s);
            lemma_root_on_chars(s, lang, f, q, acc.push(n));
        }
    }
}

pub(crate) proof fn lemma_block_children_chars(
    s: Seq<u8>,
    lang: Language,
    fm: bool,
    p: int,
    kind: BlockKind,
    acc: Seq<NodeModel>,
)
    requires
        ready(s, p),
        nodes_on_chars(acc, s),
    ensures
        block_children(s, lang, fm, p, kind, acc) matches Ok((c, q, _)) ==> nodes_on_chars(c, s)
            && ready(s, q) && p <= q,
    decreases s.len() - p, 3int,
{
    if p < s.len() && !kind.ends_at(s, p) {
        lemma_node_on_chars(s, lang, fm, p);
        if let Ok((n, q, f)) = node(s, lang, fm, p) {
            lemma_nodes_on_chars_push(acc, n, s);
            lemma_block_children_chars(s, lang, f, q, kind, acc.push(n));
        }
    }
}

pub(crate) proof fn lemma_element_children_chars(
    s: Seq<u8>,
    lang: Language,
    fm: bool,
    p: int,
    tag: Span,
    raw: bool,
    acc: Seq<NodeModel>,
)
    requires
        ready(s, p),
        nodes_on_chars(acc, s),
    ensures
        element_children(s, lang, fm, p, tag, raw, acc) matches Ok((c, q, _)) ==> nodes_on_chars(
            c,
            s,
        ) && ready(s, q) && p < q,
    decreases s.len() - p, 3int,
{
    if p < s.len() {
        if at(s, p, '<' as u8) && at(s, p + 1, '/' as u8) {
            lemma_close_tag_chars(s, lang, p, tag);
        } else if raw && !at(s, p, '<' as u8) {
            lemma_raw_text_node_chars(s, p, tag);
            crate::progress::lemma_raw_text_node(s, p, tag);
            let (t, q) = raw_text_node(s, p, tag);
            lemma_nodes_on_chars_push(acc, NodeModel::TextNode(t), s);
            lemma_element_children_chars(s, lang, fm, q, tag, raw, acc.push(NodeModel::TextNode(t)));
        } else {
            lemma_node_on_chars(s, lang, fm, p);
            if let Ok((n, q, f)) = node(s, lang, fm, p) {
                lemma_nodes_on_chars_push(acc, n, s);
                lemma_element_children_chars(s, lang, f, q, tag, raw, acc.push(n));
            }
        }
    }
}

pub(crate) proof fn lemma_element_chars(s: Seq<u8>, lang: Language, fm: bool, p: int)
    requires
        ready(s, p),
    ensures
        element(s, lang, fm, p) matches Ok((e, q, _)) ==> element_on_chars(e, s) && ready(s, q)
            && p < q,
    decreases s.len() - p, 0int,
{
    if at(s, p, '<' as u8) {
        lemma_tag_name(s, lang, p + 1);
        lemma_tag_name_chars(s, lang, p + 1);
        if let Ok((tag, q)) = tag_name(s, lang, p + 1) {
            lemma_open_tag_chars(s, lang, q, Seq::empty(), true);
            if let Ok((open, q1)) = open_tag(s, lang, q, Seq::empty(), true) {
                lemma_raw_text_node_chars(s, q1, tag);
                let raw = crate::names::spec_is_raw_text_tag(tag.text(s));
                let (first, q2) = raw_text_node(s, q1, tag);
                lemma_nodes_on_chars_push(Seq::empty(), NodeModel::TextNode(first), s);
                lemma_element_children_chars(
                    s,
                    lang,
                    fm,
                    if raw {
                        q2
                    } else {
                        q1
                    },
                    tag,
                    raw,
                    if raw && first.raw.start < first.raw.end {
                        seq![NodeModel::TextNode(first)]
                    } else {
                        Seq::empty()
                    },
                );
            }
        }
    }
}

pub(crate) proof fn lemma_svelte_block_chars(s: Seq<u8>, lang: Language, fm: bool, p: int)
    requires
        ready(s, p),
    ensures
        svelte_block(s, lang, fm, p) matches Ok((n, q, _)) ==> node_on_chars(n, s) && ready(s, q)
            && p < q,
    decreases s.len() - p, 1int,
{
    lemma_svelte_if_block_chars(s, lang, fm, p);
    lemma_svelte_each_block_chars(s, lang, fm, p);
    lemma_svelte_await_block_chars(s, lang, fm, p);
    lemma_svelte_key_block_chars(s, lang, fm, p);
}

pub(crate) proof fn lemma_section_children_chars(
    s: Seq<u8>,
    lang: Language,
    fm: bool,
    p: int,
    present: bool,
)
    requires
        ready(s, p),
    ensures
        section_children(s, lang, fm, p, present) matches Ok((c, q, _)) ==> opt_nodes_on_chars(c, s)
            && ready(s, q) && p <= q,
    decreases s.len() - p, 4int,
{
    if present {
        lemma_block_children_chars(s, lang, fm, p, BlockKind::Svelte, Seq::empty());
    }
}

pub(crate) proof fn lemma_svelte_key_block_chars(s: Seq<u8>, lang: Language, fm: bool, p: int)
    requires
        ready(s, p),
    ensures
        svelte_key_block(s, lang, fm, p) matches Ok((b, q, _)) ==> key_block_on_chars(b, s)
            && ready(s, q) && p < q,
    decreases s.len() - p, 0int,
{
    lemma_svelte_keywords();
    lemma_block_tags_chars(s, p, "{#key");
    if let Ok(a) = block_open(s, p, "{#key") {
        lemma_braced_expr_chars(s, a);
        let q = braced_expr(s, a).1;
        lemma_block_children_chars(s, lang, fm, q, BlockKind::Svelte, Seq::empty());
        if let Ok((_, r, _)) = block_children(s, lang, fm, q, BlockKind::Svelte, Seq::empty()) {
            lemma_block_tags_chars(s, r, "{/key");
        }
    }
}

pub(crate) proof fn lemma_if_branches_chars(
    s: Seq<u8>,
    lang: Language,
    fm: bool,
    p: int,
    else_ifs: Seq<ElseIfModel>,
    else_children: Option<Seq<NodeModel>>,
)
    requires
        ready(s, p),
        else_ifs_on_chars(else_ifs, s),
        opt_nodes_on_chars(else_children, s),
    ensures
        if_branches(s, lang, fm, p, else_ifs, else_children) matches Ok(((a, b), q, _))
            ==> else_ifs_on_chars(a, s) && opt_nodes_on_chars(b, s) && ready(s, q) && p < q,
    decreases s.len() - p, 3int,
{
    lemma_svelte_keywords();
    if at(s, p, '{' as u8) && at(s, p + 1, ':' as u8) && has_lit(s, p + 2, "else") {
        lemma_prefix_len(s, p + 2, "else".spec_bytes(), false, 0);
        lemma_lit_chars(s, p + 2, "else".spec_bytes(), false);
        let a = p + 2 + lit_len(s, p + 2, "else");
        lemma_skip_ws_chars(s, a);
        let w = skip_ws(s, a);
        if at(s, w, 'i' as u8) && at(s, w + 1, 'f' as u8) {
            lemma_braced_expr_chars(s, w + 2);
            let q = braced_expr(s, w + 2).1;
            lemma_block_children_chars(s, lang, fm, q, BlockKind::Svelte, Seq::empty());
            if let Ok((children, r, f)) = block_children(
                s,
                lang,
                fm,
                q,
                BlockKind::Svelte,
                Seq::empty(),
            ) {
                let block = ElseIfModel { expr: braced_expr(s, w + 2).0, children };
                assert forall|i: int| 0 <= i < else_ifs.push(block).len() implies else_if_on_chars(
                    #[trigger] else_ifs.push(block)[i],
                    s,
                ) by {
                    if i < else_ifs.len() {
                        assert(else_ifs.push(block)[i] == else_ifs[i]);
                    }
                }
                lemma_if_branches_chars(s, lang, f, r, else_ifs.push(block), else_children);
            }
        } else if at(s, w, '}' as u8) {
            lemma_block_children_chars(s, lang, fm, w + 1, BlockKind::Svelte, Seq::empty());
            if let Ok((children, r, f)) = block_children(
                s,
                lang,
                fm,
                w + 1,
                BlockKind::Svelte,
                Seq::empty(),
            ) {
                lemma_if_branches_chars(s, lang, f, r, else_ifs, Some(children));
            }
        }
    }
}

pub(crate) proof fn lemma_svelte_if_block_chars(s: Seq<u8>, lang: Language, fm: bool, p: int)
    requires
        ready(s, p),
    ensures
        svelte_if_block(s, lang, fm, p) matches Ok((b, q, _)) ==> if_block_on_chars(b, s) && ready(
            s,
            q,
        ) && p < q,
    decreases s.len() - p, 0int,
{
    lemma_svelte_keywords();
    lemma_block_tags_chars(s, p, "{#if");
    if let Ok(a) = block_open(s, p, "{#if") {
        lemma_braced_expr_chars(s, a);
        let q = braced_expr(s, a).1;
        lemma_block_children_chars(s, lang, fm, q, BlockKind::Svelte, Seq::empty());
        if let Ok((_, r, f)) = block_children(s, lang, fm, q, BlockKind::Svelte, Seq::empty()) {
            lemma_if_branches_chars(s, lang, f, r, Seq::empty(), None);
            if let Ok((_, t, _)) = if_branches(s, lang, f, r, Seq::empty(), None) {
                lemma_block_tags_chars(s, t, "if");
            }
        }
    }
}

pub(crate) proof fn lemma_svelte_each_block_chars(s: Seq<u8>, lang: Language, fm: bool, p: int)
    requires
        ready(s, p),
    ensures
        svelte_each_block(s, lang, fm, p) matches Ok((b, q, _)) ==> each_block_on_chars(b, s)
            && ready(s, q) && p < q,
    decreases s.len() - p, 0int,
{
    lemma_svelte_keywords();
    lemma_each_header_chars(s, p);
    if let Ok((_, q)) = each_header(s, p) {
        lemma_block_children_chars(s, lang, fm, q, BlockKind::Svelte, Seq::empty());
        if let Ok((_, r, f)) = block_children(s, lang, fm, q, BlockKind::Svelte, Seq::empty()) {
            lemma_block_tags_chars(s, r, "{:else");
            let r1 = match block_tag(s, r, "{:else") {
                Ok(t) => t,
                Err(_) => r,
            };
            lemma_section_children_chars(s, lang, f, r1, block_tag(s, r, "{:else") is Ok);
            if let Ok((_, r2, _)) = section_children(
                s,
                lang,
                f,
                r1,
                block_tag(s, r, "{:else") is Ok,
            ) {
                lemma_block_tags_chars(s, r2, "{/each");
            }
        }
    }
}

pub(crate) proof fn lemma_svelte_await_block_chars(s: Seq<u8>, lang: Language, fm: bool, p: int)
    requires
        ready(s, p),
    ensures
        svelte_await_block(s, lang, fm, p) matches Ok((b, q, _)) ==> await_block_on_chars(b, s)
            && ready(s, q) && p < q,
    decreases s.len() - p, 0int,
{
    lemma_svelte_keywords();
    lemma_await_header_chars(s, p);
    if let Ok((_, q)) = await_header(s, p) {
        lemma_block_children_chars(s, lang, fm, q, BlockKind::Svelte, Seq::empty());
        if let Ok((_, r, f)) = block_children(s, lang, fm, q, BlockKind::Svelte, Seq::empty()) {
            lemma_section_chars(s, r, "{:then", false, SyntaxErrorKind::ExpectSvelteThenBlock);
            if let Ok((then_tag, r1)) = section(
                s,
                r,
                "{:then",
                false,
                SyntaxErrorKind::ExpectSvelteThenBlock,
            ) {
                lemma_section_children_chars(s, lang, f, r1, then_tag is Some);
                if let Ok((_, r2, f1)) = section_children(s, lang, f, r1, then_tag is Some) {
                    lemma_section_chars(
                        s,
                        r2,
                        "{:catch",
                        true,
                        SyntaxErrorKind::ExpectSvelteCatchBlock,
                    );
                    if let Ok((catch_tag, r3)) = section(
                        s,
                        r2,
                        "{:catch",
                        true,
                        SyntaxErrorKind::ExpectSvelteCatchBlock,
                    ) {
                        lemma_section_children_chars(s, lang, f1, r3, catch_tag is Some);
                        if let Ok((_, r4, _)) = section_children(
                            s,
                            lang,
                            f1,
                            r3,
                            catch_tag is Some,
                        ) {
                            lemma_block_tags_chars(s, r4, "{/await");
                        }
                    }
                }
            }
        }
    }
}

pub(crate) proof fn lemma_jinja_after_chars(
    s: Seq<u8>,
    lang: Language,
    fm: bool,
    p: int,
    first: crate::ast::JinjaTag,
)
    requires
        ready(s, p),
        first.content.on_chars(s),
    ensures
        jinja_after(s, lang, fm, p, first) matches Ok((n, q, _)) ==> node_on_chars(n, s) && ready(
            s,
            q,
        ) && p <= q,
    decreases s.len() - p, 5int,
{
    lemma_jinja_body_on_chars_push(Seq::empty(), JinjaPart::Tag(first), s);
    lemma_jinja_body_chars(s, lang, fm, p, first, seq![JinjaPart::Tag(first)]);
}

pub(crate) proof fn lemma_jinja_body_chars(
    s: Seq<u8>,
    lang: Language,
    fm: bool,
    p: int,
    opener: crate::ast::JinjaTag,
    body: Seq<JinjaPart>,
)
    requires
        ready(s, p),
        jinja_body_on_chars(body, s),
    ensures
        jinja_body(s, lang, fm, p, opener, body) matches Ok((b, q, _)) ==> jinja_body_on_chars(b, s)
            && ready(s, q) && p < q,
    decreases s.len() - p, 4int,
{
    lemma_block_children_chars(s, lang, fm, p, BlockKind::Jinja, Seq::empty());
    if let Ok((c, q, f)) = block_children(s, lang, fm, p, BlockKind::Jinja, Seq::empty()) {
        lemma_jinja_body_on_chars_push(body, JinjaPart::Children(c), s);
        let body1 = if c.len() > 0 {
            body.push(JinjaPart::Children(c))
        } else {
            body
        };
        lemma_delimited_leaves_chars(s, q);
        if let Ok((next, r)) = jinja_tag(s, q) {
            lemma_jinja_body_on_chars_push(body1, JinjaPart::Tag(next), s);
            lemma_jinja_body_chars(s, lang, f, r, opener, body1.push(JinjaPart::Tag(next)));
            lemma_jinja_after_chars(s, lang, f, r, next);
            if let Ok((n, t, f1)) = jinja_after(s, lang, f, r, next) {
                lemma_nodes_on_chars_push(Seq::empty(), n, s);
                lemma_jinja_body_on_chars_push(body1, JinjaPart::Children(seq![n]), s);
                lemma_jinja_body_chars(
                    s,
                    lang,
                    f1,
                    t,
                    opener,
                    body1.push(JinjaPart::Children(seq![n])),
                );
            }
        }
    }
}

pub(crate) proof fn lemma_vento_after_chars(s: Seq<u8>, lang: Language, fm: bool, p: int, first: Span)
    requires
        ready(s, p),
        first.on_chars(s),
    ensures
        vento_after(s, lang, fm, p, first) matches Ok((n, q, _)) ==> node_on_chars(n, s) && ready(
            s,
            q,
        ) && p <= q,
    decreases s.len() - p, 5int,
{
    let t = first.text(s);
    if t.len() >= 1 {
        assert(t[0] == s[first.start as int]);
        assert(t.last() == s[first.end - 1]);
    }
    let tag = VentoPart::Tag(crate::ast::VentoTag { tag: first });
    lemma_vento_body_on_chars_push(Seq::empty(), tag, s);
    lemma_vento_body_chars(s, lang, fm, p, first, seq![tag]);
}

pub(crate) proof fn lemma_vento_body_chars(
    s: Seq<u8>,
    lang: Language,
    fm: bool,
    p: int,
    opener: Span,
    body: Seq<VentoPart>,
)
    requires
        ready(s, p),
        vento_body_on_chars(body, s),
    ensures
        vento_body(s, lang, fm, p, opener, body) matches Ok((b, q, _)) ==> vento_body_on_chars(b, s)
            && ready(s, q) && p < q,
    decreases s.len() - p, 4int,
{
    lemma_block_children_chars(s, lang, fm, p, BlockKind::Vento, Seq::empty());
    if let Ok((c, q, f)) = block_children(s, lang, fm, p, BlockKind::Vento, Seq::empty()) {
        lemma_vento_append_on_chars(body, c, s);
        let body1 = if c.len() > 0 {
            vento_append(body, c)
        } else {
            body
        };
        lemma_delimited_leaves_chars(s, q);
        if let Ok((next, r)) = mustache(s, q) {
            let tag = VentoPart::Tag(crate::ast::VentoTag { tag: next });
            lemma_vento_body_on_chars_push(body1, tag, s);
            lemma_vento_body_chars(s, lang, f, r, opener, body1.push(tag));
            lemma_vento_after_chars(s, lang, f, r, next);
            if let Ok((n, t, f1)) = vento_after(s, lang, f, r, next) {
                lemma_nodes_on_chars_push(Seq::empty(), n, s);
                lemma_vento_append_on_chars(body1, seq![n], s);
                lemma_vento_body_chars(s, lang, f1, t, opener, vento_append(body1, seq![n]));
            }
        }
    }
}

pub(crate) proof fn lemma_astro_body_chars(
    s: Seq<u8>,
    lang: Language,
    fm: bool,
    p: int,
    depth: nat,
    start: int,
    parts: Seq<AstroPart>,
)
    requires
        0 <= p <= s.len() <= usize::MAX,
        tidy(s),
        0 <= start <= p,
        starts_char(s, start),
        astro_parts_on_chars(parts, s),
    ensures
        astro_body(s, lang, fm, p, depth, start, parts) matches Ok((b, q, _))
            ==> astro_parts_on_chars(b, s) && ready(s, q) && p <= q,
    decreases s.len() - p, 3int,
{
    if p < s.len() {
        if s[p] == '{' as u8 {
            lemma_astro_body_chars(s, lang, fm, p + 1, depth + 1, start, parts);
        } else if s[p] == '}' as u8 {
            if depth > 0 {
                lemma_astro_body_chars(s, lang, fm, p + 1, (depth - 1) as nat, start, parts);
            } else {
                lemma_astro_parts_on_chars_push(
                    parts,
                    AstroPart::Script(crate::span::span(start, p)),
                    s,
                );
            }
        } else if s[p] == '<' as u8 && (class_at(s, p + 1, CharClass::TagName) || at(
            s,
            p + 1,
            '!' as u8,
        ) || at(s, p + 1, '>' as u8)) {
            lemma_node_on_chars(s, lang, fm, p);
            if let Ok((n, q, f)) = node(s, lang, fm, p) {
                lemma_astro_flush_on_chars(parts, start, p, s);
                lemma_astro_append_on_chars(astro_flush(s, parts, start, p), n, s);
                lemma_astro_body_chars(
                    s,
                    lang,
                    f,
                    q,
                    depth,
                    q,
                    astro_append(astro_flush(s, parts, start, p), n),
                );
            }
        } else {
            lemma_astro_body_chars(s, lang, fm, p + 1, depth, start, parts);
        }
    }
}

pub(crate) proof fn lemma_astro_expr_chars(s: Seq<u8>, lang: Language, fm: bool, p: int)
    requires
        ready(s, p),
    ensures
        astro_expr(s, lang, fm, p) matches Ok((b, q, _)) ==> astro_parts_on_chars(b, s) && ready(
            s,
            q,
        ) && p < q,
    decreases s.len() - p, 0int,
{
    if at(s, p, '{' as u8) {
        lemma_astro_body_chars(s, lang, fm, p + 1, 0, p + 1, Seq::empty());
    }
}

} // verus!

//! Laws of the grammar: statements that hold of every source text.
//!
//! What holds of every tree that the parser builds is stated in
//! [`crate::sound`] and proved with the parser; the laws here speak of the
//! grammar rules alone.

use vstd::prelude::*;
use vstd::string::StringSliceAdditionalSpecFns;
use crate::error::SyntaxErrorKind;
use crate::leaf::{
    ahead, all_ws, attr_value, braced_expr, close_tag, comment, delimited, front_matter,
    jinja_comment, jinja_tag, mustache, open_tag, raw_text_boundary, raw_text_end, raw_text_node,
    tag_name, text_boundary, text_end, text_node, text_of,
};
use crate::model::{AstroPart, NodeModel};
use crate::parser::Language;
use crate::scan::{
    at, CharClass, class_at, find, has_lit, klen, lemma_find_bounds, lemma_prefix_len,
    line_breaks, lit_len, prefix_len, skip_ws, spec_is_ascii_whitespace, until,
};
use crate::sound::{alternates, Sound};
use crate::span::{Span, span};
use crate::tree::{
    astro_append, astro_body, astro_expr, astro_flush, Branch, branch, element, element_children,
    jinja_after, node, svelte_block, text, vento_after,
};

verus! {

/// Where `pat` stands in full at `p`, the bytes of `s` from `p` on are those
/// of `pat`.
pub proof fn lemma_prefix_is_pattern(s: Seq<u8>, p: int, pat: Seq<u8>, i: int)
    requires
        0 <= p,
        0 <= i <= pat.len(),
        prefix_len(s, p, pat, false, i) == pat.len(),
    ensures
        p + pat.len() <= s.len() || i == pat.len(),
        forall|j: int| i <= j < pat.len() ==> s[p + j] == pat[j],
    decreases pat.len() - i,
{
    if i < pat.len() {
        lemma_prefix_is_pattern(s, p, pat, i + 1);
    }
}

/// The literal `kw`, where it stands at `p`, is the part of the source
/// from `p` that is as long as it.
pub proof fn lemma_literal_is_source(s: Seq<u8>, p: int, kw: &str)
    requires
        0 <= p,
        has_lit(s, p, kw),
    ensures
        p + klen(kw) <= s.len() || klen(kw) == 0,
        klen(kw) > 0 ==> s.subrange(p, p + klen(kw)) == kw.spec_bytes(),
{
    lemma_prefix_is_pattern(s, p, kw.spec_bytes(), 0);
    if klen(kw) > 0 {
        assert(s.subrange(p, p + klen(kw)) =~= kw.spec_bytes());
    }
}

/// What was read from `p` up to `q` is the literal `open`, the text of
/// `raw`, and the literal `close`, byte for byte, and `close` stands nowhere
/// inside the text: the text ends at the first `close`. Where no `close`
/// follows, what was read is `open` and the text, up to the end of the
/// source.
pub open spec fn delimited_by(s: Seq<u8>, p: int, q: int, raw: Span, open: &str, close: &str) -> bool {
    &&& raw.within(s.len())
    &&& raw.start == p + klen(open)
    &&& p < q <= s.len()
    &&& s.subrange(p, raw.start as int) == open.spec_bytes()
    &&& forall|i: int| raw.start <= i < raw.end ==> !#[trigger] has_lit(s, i, close)
    &&& if raw.end < s.len() {
        q == raw.end + klen(close) && has_lit(s, raw.end as int, close) && s.subrange(p, q)
            == open.spec_bytes() + raw.text(s) + close.spec_bytes()
    } else {
        q == s.len() && s.subrange(p, q) == open.spec_bytes() + raw.text(s)
    }
}

/// Round trip of delimited text: text that is read between the literals
/// `open` and `close` is delimited by them in the source, and reading fails
/// only where `open` does not stand.
pub proof fn lemma_delimited_round_trip(
    s: Seq<u8>,
    p: int,
    open: &str,
    close: &str,
    kind: SyntaxErrorKind,
)
    requires
        0 <= p <= s.len() <= usize::MAX,
        klen(open) > 0,
        klen(close) > 0,
    ensures
        match delimited(s, p, open, close, kind) {
            Ok((raw, q)) => has_lit(s, p, open) && delimited_by(s, p, q, raw, open, close),
            Err(e) => !has_lit(s, p, open) && e.kind == kind && p <= e.pos <= s.len(),
        },
{
    let n = prefix_len(s, p, open.spec_bytes(), false, 0);
    lemma_prefix_len(s, p, open.spec_bytes(), false, 0);
    if has_lit(s, p, open) {
        lemma_literal_is_source(s, p, open);
        let a = p + klen(open);
        let e = find(s, a, close.spec_bytes());
        lemma_find_bounds(s, a, close.spec_bytes());
        let (raw, q) = until(s, a, close);
        assert(raw == span(a, e));
        assert(s.subrange(p, a) =~= open.spec_bytes());
        if e < s.len() {
            lemma_literal_is_source(s, e, close);
            assert(q == e + klen(close));
            assert(s.subrange(p, q) =~= open.spec_bytes() + raw.text(s) + close.spec_bytes());
        } else {
            assert(lit_len(s, e, close) == 0);
            assert(s.subrange(p, q) =~= open.spec_bytes() + raw.text(s));
        }
    }
}

/// Round trip of a comment: `<!--`, its text, and `-->` are the source
/// that was read, and the text ends at the first `-->`; a comment without
/// `-->` runs to the end of the source.
pub proof fn lemma_comment_round_trip(s: Seq<u8>, p: int)
    requires
        0 <= p <= s.len() <= usize::MAX,
    ensures
        comment(s, p) matches Ok((v, q)) ==> delimited_by(s, p, q, v.raw, "<!--", "-->"),
        klen("<!--") == 4,
        klen("-->") == 3,
{
    reveal(comment);
    reveal_strlit("<!--");
    reveal_strlit("-->");
    crate::scan::lemma_klen("<!--", 4);
    crate::scan::lemma_klen("-->", 3);
    lemma_delimited_round_trip(s, p, "<!--", "-->", SyntaxErrorKind::ExpectComment);
}

/// Round trip of a Jinja tag: `{%`, its content, and `%}` are the source
/// that was read, and the content ends at the first `%}`; a tag without
/// `%}` runs to the end of the source.
pub proof fn lemma_jinja_tag_round_trip(s: Seq<u8>, p: int)
    requires
        0 <= p <= s.len() <= usize::MAX,
    ensures
        jinja_tag(s, p) matches Ok((v, q)) ==> delimited_by(s, p, q, v.content, "{%", "%}"),
        klen("{%") == 2,
        klen("%}") == 2,
{
    reveal(jinja_tag);
    reveal_strlit("{%");
    reveal_strlit("%}");
    crate::scan::lemma_klen("{%", 2);
    crate::scan::lemma_klen("%}", 2);
    lemma_delimited_round_trip(s, p, "{%", "%}", SyntaxErrorKind::ExpectJinjaTag);
}

/// Round trip of a Jinja comment: `{#`, its text, and `#}` are the source
/// that was read, and the text ends at the first `#}`; a comment without
/// `#}` runs to the end of the source.
pub proof fn lemma_jinja_comment_round_trip(s: Seq<u8>, p: int)
    requires
        0 <= p <= s.len() <= usize::MAX,
    ensures
        jinja_comment(s, p) matches Ok((v, q)) ==> delimited_by(s, p, q, v.raw, "{#", "#}"),
        klen("{#") == 2,
        klen("#}") == 2,
{
    reveal(jinja_comment);
    reveal_strlit("{#");
    reveal_strlit("#}");
    crate::scan::lemma_klen("{#", 2);
    crate::scan::lemma_klen("#}", 2);
    lemma_delimited_round_trip(s, p, "{#", "#}", SyntaxErrorKind::ExpectComment);
}

/// Round trip of an interpolation: `{{`, its expression, and `}}` are the
/// source that was read, and the expression ends at the first `}}`; one
/// without `}}` runs to the end of the source.
pub proof fn lemma_mustache_round_trip(s: Seq<u8>, p: int)
    requires
        0 <= p <= s.len() <= usize::MAX,
    ensures
        mustache(s, p) matches Ok((v, q)) ==> delimited_by(s, p, q, v, "{{", "}}"),
        klen("{{") == 2,
        klen("}}") == 2,
{
    reveal(mustache);
    reveal_strlit("{{");
    reveal_strlit("}}");
    crate::scan::lemma_klen("{{", 2);
    crate::scan::lemma_klen("}}", 2);
    lemma_delimited_round_trip(s, p, "{{", "}}", SyntaxErrorKind::ExpectMustacheInterpolation);
}

/// Round trip of a quoted attribute value: the quote, the value, and the
/// same quote are the source that was read; a value without its closing
/// quote runs to the end of the source.
pub proof fn lemma_quoted_value_round_trip(s: Seq<u8>, p: int)
    requires
        0 <= p < s.len() <= usize::MAX,
        s[p] == '"' as u8 || s[p] == '\'' as u8,
    ensures
        attr_value(s, p) matches Ok((v, q)) && v.within(s.len()) && p < q <= s.len() && v.start == p
            + 1 && (if v.end < s.len() {
            q == v.end + 1 && s[v.end as int] == s[p]
        } else {
            q == s.len()
        }),
        forall|i: int| p < i < attr_value(s, p)->Ok_0.0.end ==> s[i] != s[p],
{
    reveal_strlit("\"");
    reveal_strlit("'");
    crate::scan::lemma_klen("\"", 1);
    crate::scan::lemma_klen("'", 1);
    let kw = if s[p] == '"' as u8 {
        "\""
    } else {
        "'"
    };
    vstd::string::is_ascii_spec_bytes(kw);
    assert(kw.spec_bytes()[0] == s[p]);
    let e = find(s, p + 1, kw.spec_bytes());
    lemma_find_bounds(s, p + 1, kw.spec_bytes());
    lemma_prefix_len(s, e, kw.spec_bytes(), false, 0);
    if e < s.len() {
        lemma_prefix_is_pattern(s, e, kw.spec_bytes(), 0);
        assert(s[e + 0] == kw.spec_bytes()[0]);
    }
    assert forall|i: int| p < i < e implies s[i] != s[p] by {
        reveal_with_fuel(prefix_len, 3);
        assert(prefix_len(s, i, kw.spec_bytes(), false, 0) != 1);
    }
}

/// Round trip of a front matter: `---`, its text, and `---` are the source
/// that was read; a front matter without its closing fence is empty and
/// reads the source to its end.
pub proof fn lemma_front_matter_round_trip(s: Seq<u8>, p: int)
    requires
        0 <= p <= s.len() <= usize::MAX,
    ensures
        front_matter(s, p) matches Ok((m, q)) ==> m.raw.within(s.len()) && p < q <= s.len()
            && s.subrange(p, m.raw.start as int) == "---".spec_bytes() && (q < s.len() || m.raw.end
            > m.raw.start ==> s.subrange(p, q) == "---".spec_bytes() + m.raw.text(s)
            + "---".spec_bytes()),
{
    reveal(front_matter);
    reveal_strlit("---");
    crate::scan::lemma_klen("---", 3);
    vstd::string::is_ascii_spec_bytes("---");
    lemma_prefix_len(s, p, "---".spec_bytes(), false, 0);
    if has_lit(s, p, "---") {
        lemma_literal_is_source(s, p, "---");
        crate::boundaries::lemma_fence_chars(s, p + 3);
        assert(crate::boundaries::fence_is_dash(s, p + 3, Seq::empty()));
        if let Some(e) = crate::leaf::fence(s, p + 3, Seq::empty()) {
            let dashes = "---".spec_bytes();
            assert(dashes[0] == '-' as u8 && dashes[1] == '-' as u8 && dashes[2] == '-' as u8);
            assert(s.subrange(e, e + 3) =~= dashes);
            assert(s.subrange(p, e + 3) =~= dashes + s.subrange(p + 3, e) + dashes);
        }
    }
}

/// Round trip of a scripting expression behind `{`: whitespace, the
/// expression, and the `}` that balances the `{` are the source that was
/// read. Without that `}` the expression is empty and the source is read to
/// its end.
pub proof fn lemma_braced_expr_round_trip(s: Seq<u8>, p: int)
    requires
        0 <= p <= s.len() <= usize::MAX,
    ensures
        ({
            let (expr, q) = braced_expr(s, p);
            &&& expr.within(s.len())
            &&& p <= expr.start <= expr.end <= q <= s.len()
            &&& forall|i: int| p <= i < expr.start ==> spec_is_ascii_whitespace(#[trigger] s[i])
            &&& (expr.end < s.len() && s[expr.end as int] == '}' as u8 && q == expr.end + 1) || (q
                == s.len() && expr.end == expr.start)
        }),
{
    reveal(braced_expr);
    crate::scan::lemma_run_end_bounds(s, p, crate::scan::CharClass::Whitespace);
    crate::boundaries::lemma_balanced_chars(s, skip_ws(s, p), '{' as u8, '}' as u8, 0);
}

/// Text that is read from `p` on ends at the first boundary at or behind
/// `p`, or at the end of the source if there is none.
pub proof fn lemma_text_end_bounds(s: Seq<u8>, lang: Language, fm: bool, p: int)
    requires
        0 <= p <= s.len(),
    ensures
        p <= text_end(s, lang, fm, p) <= s.len(),
        text_end(s, lang, fm, p) < s.len() ==> text_boundary(s, lang, fm, text_end(s, lang, fm, p)),
        forall|i: int| p <= i < text_end(s, lang, fm, p) ==> !text_boundary(s, lang, fm, i),
    decreases s.len() - p,
{
    if p < s.len() && !text_boundary(s, lang, fm, p) {
        lemma_text_end_bounds(s, lang, fm, p + 1);
    }
}

/// Raw text that is read from `p` on ends at the first end tag of its
/// element at or behind `p`, or at the end of the source if there is none.
pub proof fn lemma_raw_text_end_bounds(s: Seq<u8>, p: int, tag: Seq<u8>)
    requires
        0 <= p <= s.len(),
    ensures
        p <= raw_text_end(s, p, tag) <= s.len(),
        raw_text_end(s, p, tag) < s.len() ==> raw_text_boundary(s, raw_text_end(s, p, tag), tag),
        forall|i: int| p <= i < raw_text_end(s, p, tag) ==> !raw_text_boundary(s, i, tag),
    decreases s.len() - p,
{
    if p < s.len() && !raw_text_boundary(s, p, tag) {
        lemma_raw_text_end_bounds(s, p + 1, tag);
    }
}

/// Round trip and line-break count of a text node: its text is the source
/// that was read, all of it, and its count is the number of line feeds in
/// that text.
pub proof fn lemma_text_node_round_trip(s: Seq<u8>, lang: Language, fm: bool, p: int)
    requires
        0 <= p <= s.len() <= u32::MAX,
    ensures
        text_node(s, lang, fm, p) matches Ok((t, q)) ==> p < q <= s.len() && t.raw == span(p, q)
            && t.raw.text(s) == s.subrange(p, q) && t.line_breaks == line_breaks(s, p, q),
{
    reveal(text_node);
    if p < s.len() {
        lemma_text_end_bounds(s, lang, fm, p + 1);
        crate::scan::lemma_count_bounds(s, p, text_end(s, lang, fm, p + 1), '\n' as u8);
    }
}

/// The node that starts where `branch` names a construct is of that
/// construct's kind.
pub open spec fn of_branch(b: Branch, n: NodeModel) -> bool {
    match b {
        Branch::EndOfInput => false,
        Branch::Element => n is Element,
        Branch::CommentOrDoctype => n is Comment || n is Doctype || n is TextNode,
        Branch::Comment => n is Comment,
        Branch::Text => n is TextNode,
        Branch::VueInterpolation => n is VueInterpolation,
        Branch::JinjaInterpolation => n is JinjaInterpolation,
        Branch::VentoTagOrBlock => n is VentoComment || n is VentoEval || n is VentoBlock
            || n is VentoInterpolation || n is VentoTag,
        Branch::SvelteBlock => n is SvelteIfBlock || n is SvelteEachBlock || n is SvelteAwaitBlock
            || n is SvelteKeyBlock,
        Branch::JinjaComment => n is JinjaComment,
        Branch::SvelteAtTag => n is SvelteAtTag,
        Branch::JinjaTagOrBlock => n is JinjaTag || n is JinjaBlock,
        Branch::SvelteInterpolation => n is SvelteInterpolation,
        Branch::AstroExpr => n is AstroExpr,
        Branch::AstroFrontMatter => n is AstroFrontMatter,
    }
}

/// The byte of `s` at `p` is the byte of `t` at `q`, or both sources have
/// ended there.
pub open spec fn same_at(s: Seq<u8>, p: int, t: Seq<u8>, q: int) -> bool {
    ((0 <= p < s.len()) == (0 <= q < t.len())) && (0 <= p < s.len() ==> s[p] == t[q])
}

/// The dispatcher decides by the dialect, the flag and the next three
/// bytes alone: where two sources agree in these, the same construct
/// starts.
pub proof fn lemma_dispatch_is_local(
    s: Seq<u8>,
    p: int,
    t: Seq<u8>,
    q: int,
    lang: Language,
    fm: bool,
)
    requires
        same_at(s, p, t, q),
        same_at(s, p + 1, t, q + 1),
        same_at(s, p + 2, t, q + 2),
    ensures
        branch(s, lang, fm, p) == branch(t, lang, fm, q),
{
    reveal(branch);
}

/// The dispatcher is total: at every offset of the source `branch` names
/// exactly one construct, it names the end of the input at the end of the
/// source and nowhere else, and a node that is read at the offset is of the
/// kind that `branch` names.
pub proof fn lemma_dispatch_total(s: Seq<u8>, lang: Language, fm: bool, p: int)
    requires
        0 <= p <= s.len(),
    ensures
        branch(s, lang, fm, p) == Branch::EndOfInput <==> p == s.len(),
        node(s, lang, fm, p) matches Ok((n, _, _)) ==> of_branch(branch(s, lang, fm, p), n),
        p == s.len() ==> node(s, lang, fm, p) is Err,
{
    reveal(branch);
    match branch(s, lang, fm, p) {
        Branch::VentoTagOrBlock => {
            if let Ok((tag, q)) = mustache(s, p) {
                let _ = vento_after(s, lang, fm, q, tag);
            }
        },
        Branch::JinjaTagOrBlock => {
            if let Ok((tag, q)) = jinja_tag(s, p) {
                let _ = jinja_after(s, lang, fm, q, tag);
            }
        },
        Branch::SvelteBlock => {
            let _ = svelte_block(s, lang, fm, p);
        },
        _ => {},
    }
}

/// Line-break accounting: a text node made of the bytes from `a` up to `b`
/// counts the line feeds among them. Every text node of the grammar is made
/// so, be it plain text, raw text, or whitespace inside an Astro
/// expression.
pub proof fn lemma_text_counts_line_breaks(s: Seq<u8>, a: int, b: int)
    requires
        0 <= a <= b <= s.len() <= u32::MAX,
    ensures
        text_of(s, a, b).raw == span(a, b),
        text_of(s, a, b).line_breaks == line_breaks(s, a, b),
        text_of(s, a, b).sound(s),
{
    crate::scan::lemma_count_bounds(s, a, b, '\n' as u8);
}

/// The children of an element end with its end tag: where they are read
/// from `p`, the end tag stands at some offset at or behind `p`, and
/// reading ends behind it.
pub proof fn lemma_children_end_with_end_tag(
    s: Seq<u8>,
    lang: Language,
    fm: bool,
    p: int,
    tag: Span,
    raw: bool,
    acc: Seq<NodeModel>,
)
    requires
        0 <= p <= s.len(),
    ensures
        element_children(s, lang, fm, p, tag, raw, acc) matches Ok((_, q, _)) ==> exists|a: int|
            p <= a < q && at(s, a, '<' as u8) && at(s, a + 1, '/' as u8) && #[trigger] close_tag(
                s,
                lang,
                a,
                tag,
            ) == Ok::<int, crate::error::SyntaxError>(q),
    decreases s.len() - p,
{
    if p < s.len() {
        if at(s, p, '<' as u8) && at(s, p + 1, '/' as u8) {
            crate::progress::lemma_close_tag(s, lang, p, tag);
        } else if raw && !at(s, p, '<' as u8) {
            let (t, q) = raw_text_node(s, p, tag);
            if ahead(s, p, q) {
                lemma_children_end_with_end_tag(
                    s,
                    lang,
                    fm,
                    q,
                    tag,
                    raw,
                    acc.push(NodeModel::TextNode(t)),
                );
            }
        } else {
            if let Ok((n, q, f)) = node(s, lang, fm, p) {
                if ahead(s, p, q) {
                    lemma_children_end_with_end_tag(s, lang, f, q, tag, raw, acc.push(n));
                }
            }
        }
    }
}

/// The element that was read from `p` up to `q` is balanced: if it is void
/// or closes itself, it has no children and ends with the `>` of its open
/// tag, with `/>` where it closes itself; otherwise it ends with an end tag
/// that bears its name.
pub open spec fn balanced_element(
    s: Seq<u8>,
    lang: Language,
    p: int,
    q: int,
    e: crate::model::ElementModel,
) -> bool {
    &&& e.tag_name.start == p + 1
    &&& p < q <= s.len()
    &&& s[q - 1] == '>' as u8
    &&& if e.void_element || e.self_closing {
        e.children.len() == 0 && (e.self_closing ==> p + 2 <= q && s[q - 2] == '/' as u8)
    } else {
        exists|a: int| p < a < q && #[trigger] end_tag_at(s, lang, a, q, e.tag_name)
    }
}

/// Element balance: an element that is void or closes itself has no
/// children; any other element is followed by its end tag, whose name is
/// that of the open tag up to ASCII case.
pub proof fn lemma_element_balance(s: Seq<u8>, lang: Language, fm: bool, p: int)
    requires
        0 <= p <= s.len() <= usize::MAX,
    ensures
        element(s, lang, fm, p) matches Ok((e, q, _)) ==> balanced_element(s, lang, p, q, e),
{
    if let Ok((e, end, _)) = element(s, lang, fm, p) {
        let (tag, q) = tag_name(s, lang, p + 1)->Ok_0;
        let (open, q1) = open_tag(s, lang, q, Seq::empty(), true)->Ok_0;
        crate::progress::lemma_tag_name(s, lang, p + 1);
        lemma_open_tag_end(s, lang, q, Seq::empty(), true);
        assert(e.tag_name == tag);
        assert(tag.start == p + 1) by {
            reveal(tag_name);
        }
        if !(e.void_element || e.self_closing) {
            let raw = crate::names::spec_is_raw_text_tag(tag.text(s));
            let (first, q2) = raw_text_node(s, q1, tag);
            let from = if raw {
                q2
            } else {
                q1
            };
            let acc = if raw && first.raw.start < first.raw.end {
                seq![NodeModel::TextNode(first)]
            } else {
                Seq::empty()
            };
            assert(ahead(s, p, from));
            lemma_children_end_with_end_tag(s, lang, fm, from, tag, raw, acc);
            let a = choose|a: int|
                from <= a < end && at(s, a, '<' as u8) && at(s, a + 1, '/' as u8)
                    && #[trigger] close_tag(s, lang, a, tag) == Ok::<int, crate::error::SyntaxError>(
                    end,
                );
            lemma_end_tag_matches(s, lang, a, tag);
            assert(p < a < end && end_tag_at(s, lang, a, end, e.tag_name));
        }
    }
}

/// The end tag `</name>` of the element named by `tag` stands from `a` up
/// to `q`: `</`, a tag name that is the element's name up to ASCII case,
/// nothing but ASCII whitespace, and `>`.
pub open spec fn end_tag_at(s: Seq<u8>, lang: Language, a: int, q: int, tag: Span) -> bool {
    &&& at(s, a, '<' as u8)
    &&& at(s, a + 1, '/' as u8)
    &&& a + 2 < q <= s.len()
    &&& s[q - 1] == '>' as u8
    &&& tag_name(s, lang, a + 2) matches Ok((name, e)) && name.start == a + 2 && name.end == e && e
        < q && crate::names::text_eq(name.text(s), tag.text(s), true) && forall|i: int|
        e <= i < q - 1 ==> spec_is_ascii_whitespace(#[trigger] s[i])
}

/// The end tag that closes an element bears the element's name up to ASCII
/// case; only ASCII whitespace may stand between the name and `>`.
pub proof fn lemma_end_tag_matches(s: Seq<u8>, lang: Language, a: int, tag: Span)
    requires
        0 <= a,
        a + 2 <= s.len() <= usize::MAX,
        at(s, a, '<' as u8),
        at(s, a + 1, '/' as u8),
    ensures
        close_tag(s, lang, a, tag) matches Ok(q) ==> end_tag_at(s, lang, a, q, tag),
{
    reveal(close_tag);
    reveal(tag_name);
    crate::progress::lemma_tag_name(s, lang, a + 2);
    if let Ok((_, q)) = tag_name(s, lang, a + 2) {
        crate::progress::lemma_skip_ws(s, q);
        crate::scan::lemma_run_end_bounds(s, q, CharClass::Whitespace);
        crate::scan::lemma_run_end_bounds(s, a + 2, CharClass::TagName);
    }
}

/// The end of an open tag: it ends with `>`, and where the tag closes
/// itself, with `/>`.
pub proof fn lemma_open_tag_end(
    s: Seq<u8>,
    lang: Language,
    p: int,
    acc: Seq<crate::ast::Attribute>,
    same_line: bool,
)
    requires
        0 <= p <= s.len(),
    ensures
        open_tag(s, lang, p, acc, same_line) matches Ok((t, q)) ==> p < q <= s.len() && s[q - 1]
            == '>' as u8 && (t.self_closing ==> p + 2 <= q && s[q - 2] == '/' as u8),
    decreases s.len() - p,
{
    reveal(open_tag);
    if at(s, p, '/' as u8) {
    } else if at(s, p, '>' as u8) {
    } else if at(s, p, '\n' as u8) {
        lemma_open_tag_end(s, lang, p + 1, acc, same_line && acc.len() > 0);
    } else if class_at(s, p, CharClass::Whitespace) {
        lemma_open_tag_end(s, lang, p + 1, acc, same_line);
    } else {
        if let Ok((a, q)) = crate::leaf::attr(s, lang, p) {
            if ahead(s, p, q) {
                lemma_open_tag_end(s, lang, q, acc.push(a), same_line);
            }
        }
    }
}

/// The parts alternate and do not end in script text.
pub open spec fn alternates_to_template(parts: Seq<AstroPart>) -> bool {
    alternates(parts) && (parts.len() > 0 ==> parts.last() is Template)
}

/// Script text before markup, then a node, keep the parts of an Astro
/// expression alternating, and let them end in a template.
pub proof fn lemma_flush_then_append_alternates(
    s: Seq<u8>,
    parts: Seq<AstroPart>,
    a: int,
    b: int,
    n: NodeModel,
)
    requires
        alternates_to_template(parts),
    ensures
        alternates_to_template(astro_append(astro_flush(s, parts, a, b), n)),
{
    let mid = astro_flush(s, parts, a, b);
    let out = astro_append(mid, n);
    assert(alternates(mid)) by {
        assert forall|i: int| 0 <= i < mid.len() - 1 implies ((#[trigger] mid[i]) is Script) != (mid[i
            + 1] is Script) by {
            if mid.len() == parts.len() {
                assert((mid[i] is Script) == (parts[i] is Script));
                assert((mid[i + 1] is Script) == (parts[i + 1] is Script));
            } else {
                assert(mid[i] == parts[i]);
                if i + 1 < parts.len() {
                    assert(mid[i + 1] == parts[i + 1]);
                }
            }
        }
    }
    assert forall|i: int| 0 <= i < out.len() - 1 implies ((#[trigger] out[i]) is Script) != (out[i
        + 1] is Script) by {
        if out.len() == mid.len() {
            assert((out[i] is Script) == (mid[i] is Script));
            assert((out[i + 1] is Script) == (mid[i + 1] is Script));
        } else {
            assert(out[i] == mid[i]);
            if i + 1 < mid.len() {
                assert(out[i + 1] == mid[i + 1]);
            }
        }
    }
}

/// The parts that the body of an Astro expression is read as alternate, if
/// the parts before it do and do not end in script text.
pub proof fn lemma_astro_body_alternates(
    s: Seq<u8>,
    lang: Language,
    fm: bool,
    p: int,
    depth: nat,
    start: int,
    parts: Seq<AstroPart>,
)
    requires
        0 <= p <= s.len(),
        alternates_to_template(parts),
    ensures
        astro_body(s, lang, fm, p, depth, start, parts) matches Ok((b, _, _)) ==> alternates(b),
    decreases s.len() - p,
{
    if p < s.len() {
        if s[p] == '{' as u8 {
            lemma_astro_body_alternates(s, lang, fm, p + 1, depth + 1, start, parts);
        } else if s[p] == '}' as u8 {
            if depth > 0 {
                lemma_astro_body_alternates(s, lang, fm, p + 1, (depth - 1) as nat, start, parts);
            } else {
                let out = parts.push(AstroPart::Script(span(start, p)));
                assert forall|i: int| 0 <= i < out.len() - 1 implies ((#[trigger] out[i]) is Script)
                    != (out[i + 1] is Script) by {
                    assert(out[i] == parts[i]);
                    if i + 1 < parts.len() {
                        assert(out[i + 1] == parts[i + 1]);
                    }
                }
            }
        } else if s[p] == '<' as u8 && (class_at(s, p + 1, CharClass::TagName) || at(
            s,
            p + 1,
            '!' as u8,
        ) || at(s, p + 1, '>' as u8)) {
            if let Ok((n, q, f)) = node(s, lang, fm, p) {
                if ahead(s, p, q) {
                    lemma_flush_then_append_alternates(s, parts, start, p, n);
                    lemma_astro_body_alternates(
                        s,
                        lang,
                        f,
                        q,
                        depth,
                        q,
                        astro_append(astro_flush(s, parts, start, p), n),
                    );
                }
            }
        } else {
            lemma_astro_body_alternates(s, lang, fm, p + 1, depth, start, parts);
        }
    }
}

/// Astro expression alternation: among the parts of an Astro expression no
/// two neighbours are both script text or both templates.
pub proof fn lemma_astro_expr_alternates(s: Seq<u8>, lang: Language, fm: bool, p: int)
    requires
        0 <= p <= s.len(),
    ensures
        astro_expr(s, lang, fm, p) matches Ok((parts, _, _)) ==> alternates(parts),
{
    if at(s, p, '{' as u8) {
        lemma_astro_body_alternates(s, lang, fm, p + 1, 0, p + 1, Seq::empty());
    }
}

/// The part is a template that holds a node, or script text that holds
/// more than whitespace.
pub open spec fn full_part(s: Seq<u8>, part: AstroPart) -> bool {
    match part {
        AstroPart::Template(nodes) => nodes.len() > 0,
        AstroPart::Script(t) => t.start < t.end && !all_ws(s, t.start as int, t.end as int),
    }
}

/// The parts of an Astro expression are well parted: they alternate,
/// every template holds a node, and every script part but the last holds
/// more than whitespace. So nodes that follow one another, or that only
/// whitespace separates, stand in one template, and script text stands
/// between two templates only where more than whitespace separates them.
pub open spec fn well_parted(s: Seq<u8>, parts: Seq<AstroPart>) -> bool {
    &&& alternates(parts)
    &&& forall|i: int|
        0 <= i < parts.len() && (i < parts.len() - 1 || parts[i] is Template) ==> full_part(
            s,
            #[trigger] parts[i],
        )
}

/// The parts are well parted, every one of them is full, and they do not
/// end in script text.
pub open spec fn parted_to_template(s: Seq<u8>, parts: Seq<AstroPart>) -> bool {
    &&& alternates_to_template(parts)
    &&& forall|i: int| 0 <= i < parts.len() ==> full_part(s, #[trigger] parts[i])
}

proof fn lemma_flush_then_append_parted(
    s: Seq<u8>,
    parts: Seq<AstroPart>,
    a: int,
    b: int,
    n: NodeModel,
)
    requires
        parted_to_template(s, parts),
        0 <= a <= s.len() <= usize::MAX,
        0 <= b <= s.len(),
    ensures
        parted_to_template(s, astro_append(astro_flush(s, parts, a, b), n)),
{
    lemma_flush_then_append_alternates(s, parts, a, b, n);
    let mid = astro_flush(s, parts, a, b);
    let out = astro_append(mid, n);
    assert forall|i: int| 0 <= i < mid.len() implies full_part(s, #[trigger] mid[i]) by {
        if i < parts.len() - 1 {
            assert(mid[i] == parts[i]);
        } else if i < parts.len() {
            assert(full_part(s, parts[i]));
        }
    }
    assert forall|i: int| 0 <= i < out.len() implies full_part(s, #[trigger] out[i]) by {
        if i < mid.len() - 1 {
            assert(out[i] == mid[i]);
        } else if i < mid.len() {
            assert(full_part(s, mid[i]));
        }
    }
}

proof fn lemma_astro_body_parted(
    s: Seq<u8>,
    lang: Language,
    fm: bool,
    p: int,
    depth: nat,
    start: int,
    parts: Seq<AstroPart>,
)
    requires
        0 <= start <= p <= s.len() <= usize::MAX,
        parted_to_template(s, parts),
    ensures
        astro_body(s, lang, fm, p, depth, start, parts) matches Ok((b, _, _)) ==> well_parted(s, b),
    decreases s.len() - p,
{
    lemma_astro_body_alternates(s, lang, fm, p, depth, start, parts);
    if p < s.len() {
        if s[p] == '{' as u8 {
            lemma_astro_body_parted(s, lang, fm, p + 1, depth + 1, start, parts);
        } else if s[p] == '}' as u8 {
            if depth > 0 {
                lemma_astro_body_parted(s, lang, fm, p + 1, (depth - 1) as nat, start, parts);
            } else {
                let out = parts.push(AstroPart::Script(span(start, p)));
                assert forall|i: int|
                    0 <= i < out.len() && (i < out.len() - 1
                        || out[i] is Template) implies full_part(s, #[trigger] out[i]) by {
                    assert(out[i] == parts[i]);
                }
            }
        } else if s[p] == '<' as u8 && (class_at(s, p + 1, CharClass::TagName) || at(
            s,
            p + 1,
            '!' as u8,
        ) || at(s, p + 1, '>' as u8)) {
            if let Ok((n, q, f)) = node(s, lang, fm, p) {
                if ahead(s, p, q) {
                    lemma_flush_then_append_parted(s, parts, start, p, n);
                    lemma_astro_body_parted(
                        s,
                        lang,
                        f,
                        q,
                        depth,
                        q,
                        astro_append(astro_flush(s, parts, start, p), n),
                    );
                }
            }
        } else {
            lemma_astro_body_parted(s, lang, fm, p + 1, depth, start, parts);
        }
    }
}

/// The parts of an Astro expression are well parted.
pub proof fn lemma_astro_expr_well_parted(s: Seq<u8>, lang: Language, fm: bool, p: int)
    requires
        0 <= p <= s.len() <= usize::MAX,
    ensures
        astro_expr(s, lang, fm, p) matches Ok((parts, _, _)) ==> well_parted(s, parts),
{
    if at(s, p, '{' as u8) {
        lemma_astro_body_parted(s, lang, fm, p + 1, 0, p + 1, Seq::empty());
    }
}

} // verus!

//! The grammar of nodes: which construct starts at an offset, and how
//! elements and blocks are built from the nodes inside them.
//!
//! Each rule reads the source `s` in dialect `lang` from offset `p`, with
//! `fm` saying whether a front matter has been read, and gives the model of
//! what it read, the offset behind it, and the new `fm`; or the error with
//! which reading fails.

use vstd::prelude::*;
use crate::ast::{
    AstroFrontMatter, Comment, JinjaInterpolation, JinjaTag, TextNode, VentoComment, VentoEval,
    VentoInterpolation, VentoTag, VueInterpolation,
};
use crate::error::{fail, SyntaxError, SyntaxErrorKind};
use crate::leaf::{
    ahead, all_ws, await_header, block_open, block_tag, braced_expr, close_tag, comment, doctype,
    each_header, front_matter, jinja_comment, jinja_tag, mustache, open_tag, OpenTag,
    raw_text_node, section, stuck, svelte_at_tag, svelte_interpolation, tag_name, text_node,
    text_of,
};
use crate::model::{
    AstroPart, AwaitBlockModel, CatchModel, EachBlockModel, ElementModel, ElseIfModel,
    IfBlockModel, JinjaPart, KeyBlockModel, NodeModel, ThenModel, VentoPart,
};
use crate::names::{
    jinja_tag_name, spec_closes_jinja_block, spec_closes_vento_block, spec_is_jinja_branch,
    spec_is_raw_text_tag, spec_is_vento_branch, spec_is_vento_interpolation, spec_is_void_element,
    spec_opens_jinja_block, spec_opens_vento_block, vento_tag_parts,
};
use crate::parser::Language;
use crate::scan::{at, CharClass, class_at, has_lit, lit_len, skip_ws};
use crate::span::{Span, span};

verus! {

/// What reading one construct with nodes in it gives: its model, the offset
/// behind it, and whether a front matter has been read by then.
pub type Parse<T> = Result<(T, int, bool), SyntaxError>;

/// The constructs among which the first bytes of a node decide.
#[derive(Clone, Copy, Debug, PartialEq, Eq)]
pub enum Branch {
    /// Nothing is left to read.
    EndOfInput,
    Element,
    /// `<!`: a comment, else a doctype, else text.
    CommentOrDoctype,
    /// `<!` in Vue and Svelte: a comment.
    Comment,
    Text,
    VueInterpolation,
    JinjaInterpolation,
    VentoTagOrBlock,
    SvelteBlock,
    JinjaComment,
    SvelteAtTag,
    JinjaTagOrBlock,
    SvelteInterpolation,
    AstroExpr,
    AstroFrontMatter,
}

/// The construct that starts at offset `p`.
#[verifier::opaque]
pub open spec fn branch(s: Seq<u8>, lang: Language, fm: bool, p: int) -> Branch {
    if !(0 <= p < s.len()) {
        Branch::EndOfInput
    } else if s[p] == '<' as u8 {
        if class_at(s, p + 1, CharClass::TagName) {
            Branch::Element
        } else if at(s, p + 1, '!' as u8) {
            if lang == Language::Vue || lang == Language::Svelte {
                Branch::Comment
            } else {
                Branch::CommentOrDoctype
            }
        } else if at(s, p + 1, '>' as u8) && lang == Language::Astro {
            Branch::Element
        } else {
            Branch::Text
        }
    } else if s[p] == '{' as u8 {
        if at(s, p + 1, '{' as u8) && lang == Language::Vue {
            Branch::VueInterpolation
        } else if at(s, p + 1, '{' as u8) && lang == Language::Jinja {
            Branch::JinjaInterpolation
        } else if at(s, p + 1, '{' as u8) && lang == Language::Vento {
            Branch::VentoTagOrBlock
        } else if at(s, p + 1, '#' as u8) && lang == Language::Svelte {
            Branch::SvelteBlock
        } else if at(s, p + 1, '#' as u8) && lang == Language::Jinja {
            Branch::JinjaComment
        } else if at(s, p + 1, '@' as u8) {
            Branch::SvelteAtTag
        } else if at(s, p + 1, '%' as u8) && lang == Language::Jinja {
            Branch::JinjaTagOrBlock
        } else if lang == Language::Svelte {
            Branch::SvelteInterpolation
        } else if lang == Language::Astro {
            Branch::AstroExpr
        } else {
            Branch::Text
        }
    } else if s[p] == '-' as u8 && lang == Language::Astro && !fm && at(s, p + 1, '-' as u8)
        && at(s, p + 2, '-' as u8) {
        Branch::AstroFrontMatter
    } else {
        Branch::Text
    }
}

/// The kinds of block whose children end before a tag of the dialect.
#[derive(Clone, Copy, Debug, PartialEq, Eq)]
pub enum BlockKind {
    /// Children end before `{/` or `{:`.
    Svelte,
    /// Children end before `{%`.
    Jinja,
    /// Children end before `{{`.
    Vento,
}

impl BlockKind {
    /// The children of a block of this kind end at `p`.
    pub open spec fn ends_at(self, s: Seq<u8>, p: int) -> bool {
        at(s, p, '{' as u8) && match self {
            BlockKind::Svelte => at(s, p + 1, '/' as u8) || at(s, p + 1, ':' as u8),
            BlockKind::Jinja => at(s, p + 1, '%' as u8),
            BlockKind::Vento => at(s, p + 1, '{' as u8),
        }
    }

    /// The error where the input ends inside a block of this kind.
    pub open spec fn unclosed(self) -> SyntaxErrorKind {
        match self {
            BlockKind::Svelte => SyntaxErrorKind::ExpectSvelteBlockEnd,
            BlockKind::Jinja => SyntaxErrorKind::ExpectJinjaBlockEnd,
            BlockKind::Vento => SyntaxErrorKind::ExpectVentoBlockEnd,
        }
    }
}

/// The text node `t` as a node at `q`.
pub open spec fn text(r: crate::leaf::Scan<TextNode>, fm: bool) -> Parse<NodeModel> {
    match r {
        Ok((t, q)) => Ok((NodeModel::TextNode(t), q, fm)),
        Err(e) => Err(e),
    }
}

/// One node.
pub open spec fn node(s: Seq<u8>, lang: Language, fm: bool, p: int) -> Parse<NodeModel>
    decreases s.len() - p, 2int,
{
    match branch(s, lang, fm, p) {
        Branch::EndOfInput => Err(fail(SyntaxErrorKind::ExpectElement, p)),
        Branch::Element => match element(s, lang, fm, p) {
            Ok((e, q, f)) => Ok((NodeModel::Element(e), q, f)),
            Err(e) => Err(e),
        },
        Branch::CommentOrDoctype => match comment(s, p) {
            Ok((c, q)) => Ok((NodeModel::Comment(c), q, fm)),
            Err(_) => match doctype(s, p) {
                Ok((_, q)) => Ok((NodeModel::Doctype, q, fm)),
                Err(_) => text(text_node(s, lang, fm, p), fm),
            },
        },
        Branch::Comment => match comment(s, p) {
            Ok((c, q)) => Ok((NodeModel::Comment(c), q, fm)),
            Err(e) => Err(e),
        },
        Branch::Text => text(text_node(s, lang, fm, p), fm),
        Branch::VueInterpolation => match mustache(s, p) {
            Ok((expr, q)) => Ok((NodeModel::VueInterpolation(VueInterpolation { expr }), q, fm)),
            Err(e) => Err(e),
        },
        Branch::JinjaInterpolation => match mustache(s, p) {
            Ok((expr, q)) => Ok(
                (NodeModel::JinjaInterpolation(JinjaInterpolation { expr }), q, fm),
            ),
            Err(e) => Err(e),
        },
        Branch::VentoTagOrBlock => match mustache(s, p) {
            Ok((tag, q)) => if ahead(s, p, q) {
                vento_after(s, lang, fm, q, tag)
            } else {
                Err(stuck(p))
            },
            Err(e) => Err(e),
        },
        Branch::SvelteBlock => svelte_block(s, lang, fm, p),
        Branch::JinjaComment => match jinja_comment(s, p) {
            Ok((c, q)) => Ok((NodeModel::JinjaComment(c), q, fm)),
            Err(e) => Err(e),
        },
        Branch::SvelteAtTag => match svelte_at_tag(s, p) {
            Ok((t, q)) => Ok((NodeModel::SvelteAtTag(t), q, fm)),
            Err(e) => Err(e),
        },
        Branch::JinjaTagOrBlock => match jinja_tag(s, p) {
            Ok((tag, q)) => if ahead(s, p, q) {
                jinja_after(s, lang, fm, q, tag)
            } else {
                Err(stuck(p))
            },
            Err(e) => Err(e),
        },
        Branch::SvelteInterpolation => match svelte_interpolation(s, p) {
            Ok((i, q)) => Ok((NodeModel::SvelteInterpolation(i), q, fm)),
            Err(e) => Err(e),
        },
        Branch::AstroExpr => match astro_expr(s, lang, fm, p) {
            Ok((parts, q, f)) => Ok((NodeModel::AstroExpr(parts), q, f)),
            Err(e) => Err(e),
        },
        Branch::AstroFrontMatter => match front_matter(s, p) {
            Ok((m, q)) => Ok((NodeModel::AstroFrontMatter(m), q, true)),
            Err(e) => Err(e),
        },
    }
}

/// The nodes from `p` to the end of the input, behind the nodes `acc`.
pub open spec fn root(s: Seq<u8>, lang: Language, fm: bool, p: int, acc: Seq<NodeModel>) -> Parse<
    Seq<NodeModel>,
>
    decreases s.len() - p, 3int,
{
    if p < 0 || p >= s.len() {
        Ok((acc, p, fm))
    } else {
        match node(s, lang, fm, p) {
            Err(e) => Err(e),
            Ok((n, q, f)) => if ahead(s, p, q) {
                root(s, lang, f, q, acc.push(n))
            } else {
                Err(stuck(p))
            },
        }
    }
}

/// The children of a block of kind `kind`: the nodes from `p` up to the next
/// tag that ends them, behind the nodes `acc`. The input may not end first.
pub open spec fn block_children(
    s: Seq<u8>,
    lang: Language,
    fm: bool,
    p: int,
    kind: BlockKind,
    acc: Seq<NodeModel>,
) -> Parse<Seq<NodeModel>>
    decreases s.len() - p, 3int,
{
    if p < 0 || p >= s.len() {
        Err(fail(kind.unclosed(), p))
    } else if kind.ends_at(s, p) {
        Ok((acc, p, fm))
    } else {
        match node(s, lang, fm, p) {
            Err(e) => Err(e),
            Ok((n, q, f)) => if ahead(s, p, q) {
                block_children(s, lang, f, q, kind, acc.push(n))
            } else {
                Err(stuck(p))
            },
        }
    }
}

/// The children of the element named by `tag`, and its end tag: nodes, or
/// in a raw-text element (`raw`) runs of raw text, from `p` on, behind the
/// nodes `acc`.
pub open spec fn element_children(
    s: Seq<u8>,
    lang: Language,
    fm: bool,
    p: int,
    tag: Span,
    raw: bool,
    acc: Seq<NodeModel>,
) -> Parse<Seq<NodeModel>>
    decreases s.len() - p, 3int,
{
    if p < 0 || p >= s.len() {
        Err(fail(SyntaxErrorKind::ExpectCloseTag, p))
    } else if at(s, p, '<' as u8) && at(s, p + 1, '/' as u8) {
        match close_tag(s, lang, p, tag) {
            Ok(q) => Ok((acc, q, fm)),
            Err(e) => Err(e),
        }
    } else if raw && !at(s, p, '<' as u8) {
        if ahead(s, p, raw_text_node(s, p, tag).1) {
            element_children(
                s,
                lang,
                fm,
                raw_text_node(s, p, tag).1,
                tag,
                raw,
                acc.push(NodeModel::TextNode(raw_text_node(s, p, tag).0)),
            )
        } else {
            Err(stuck(p))
        }
    } else {
        match node(s, lang, fm, p) {
            Err(e) => Err(e),
            Ok((n, q, f)) => if ahead(s, p, q) {
                element_children(s, lang, f, q, tag, raw, acc.push(n))
            } else {
                Err(stuck(p))
            },
        }
    }
}

/// The element with the name `tag` and the open tag `open`, given what its
/// children and end tag were read as.
pub open spec fn element_with(tag: Span, open: OpenTag, children: Parse<Seq<NodeModel>>) -> Parse<
    ElementModel,
> {
    match children {
        Err(e) => Err(e),
        Ok((children, q, f)) => Ok(
            (
                ElementModel {
                    tag_name: tag,
                    attrs: open.attrs,
                    first_attr_same_line: open.first_attr_same_line,
                    children,
                    self_closing: false,
                    void_element: false,
                },
                q,
                f,
            ),
        ),
    }
}

/// An element: `<`, a tag name, attributes, and `/>` or `>`; behind `>`,
/// unless the element is void, its children and its end tag. A raw-text
/// element starts with one run of raw text, which is left out if empty.
pub open spec fn element(s: Seq<u8>, lang: Language, fm: bool, p: int) -> Parse<ElementModel>
    decreases s.len() - p, 0int,
{
    if !at(s, p, '<' as u8) {
        Err(fail(SyntaxErrorKind::ExpectElement, p))
    } else {
        match tag_name(s, lang, p + 1) {
            Err(e) => Err(e),
            Ok((tag, q)) => match open_tag(s, lang, q, Seq::empty(), true) {
                Err(e) => Err(e),
                Ok((open, q1)) => {
                    let void = spec_is_void_element(tag.text(s), lang);
                    let raw = spec_is_raw_text_tag(tag.text(s));
                    let (first, q2) = raw_text_node(s, q1, tag);
                    if open.self_closing || void {
                        Ok(
                            (
                                ElementModel {
                                    tag_name: tag,
                                    attrs: open.attrs,
                                    first_attr_same_line: open.first_attr_same_line,
                                    children: Seq::empty(),
                                    self_closing: open.self_closing,
                                    void_element: void,
                                },
                                q1,
                                fm,
                            ),
                        )
                    } else if !ahead(s, p, q1) || (raw && !ahead(s, p, q2)) {
                        Err(stuck(p))
                    } else {
                        element_with(
                            tag,
                            open,
                            element_children(
                                s,
                                lang,
                                fm,
                                if raw {
                                    q2
                                } else {
                                    q1
                                },
                                tag,
                                raw,
                                if raw && first.raw.start < first.raw.end {
                                    seq![NodeModel::TextNode(first)]
                                } else {
                                    Seq::empty()
                                },
                            ),
                        )
                    }
                },
            },
        }
    }
}

/// A Svelte block that starts with `{#`: the first of `{#if}`, `{#each}`,
/// `{#await}` and `{#key}` that can be read in full. Whatever goes wrong
/// inside is reported as an unknown block at the `#`.
pub open spec fn svelte_block(s: Seq<u8>, lang: Language, fm: bool, p: int) -> Parse<NodeModel>
    decreases s.len() - p, 1int,
{
    match svelte_if_block(s, lang, fm, p) {
        Ok((b, q, f)) => Ok((NodeModel::SvelteIfBlock(b), q, f)),
        Err(_) => match svelte_each_block(s, lang, fm, p) {
            Ok((b, q, f)) => Ok((NodeModel::SvelteEachBlock(b), q, f)),
            Err(_) => match svelte_await_block(s, lang, fm, p) {
                Ok((b, q, f)) => Ok((NodeModel::SvelteAwaitBlock(b), q, f)),
                Err(_) => match svelte_key_block(s, lang, fm, p) {
                    Ok((b, q, f)) => Ok((NodeModel::SvelteKeyBlock(b), q, f)),
                    Err(_) => Err(fail(SyntaxErrorKind::UnknownSvelteBlock, p + 1)),
                },
            },
        },
    }
}

/// The children of a section of a block, where there is one (`present`).
pub open spec fn section_children(
    s: Seq<u8>,
    lang: Language,
    fm: bool,
    p: int,
    present: bool,
) -> Parse<Option<Seq<NodeModel>>>
    decreases s.len() - p, 4int,
{
    if present {
        match block_children(s, lang, fm, p, BlockKind::Svelte, Seq::empty()) {
            Ok((c, q, f)) => Ok((Some(c), q, f)),
            Err(e) => Err(e),
        }
    } else {
        Ok((None, p, fm))
    }
}

/// `{#key expr} .. {/key}`
pub open spec fn svelte_key_block(s: Seq<u8>, lang: Language, fm: bool, p: int) -> Parse<
    KeyBlockModel,
>
    decreases s.len() - p, 0int,
{
    match block_open(s, p, "{#key") {
        Err(a) => Err(fail(SyntaxErrorKind::ExpectSvelteKeyBlock, a)),
        Ok(a) => if !ahead(s, p, braced_expr(s, a).1) {
            Err(stuck(p))
        } else {
            match block_children(
                s,
                lang,
                fm,
                braced_expr(s, a).1,
                BlockKind::Svelte,
                Seq::empty(),
            ) {
                Err(e) => Err(e),
                Ok((children, q, f)) => match block_tag(s, q, "{/key") {
                    Err(b) => Err(fail(SyntaxErrorKind::ExpectSvelteBlockEnd, b)),
                    Ok(t) => Ok((KeyBlockModel { expr: braced_expr(s, a).0, children }, t, f)),
                },
            }
        },
    }
}

/// The offset behind one byte at `p`, if there is one.
pub open spec fn behind(s: Seq<u8>, p: int) -> int {
    if p < s.len() {
        p + 1
    } else {
        p
    }
}

/// The branches of an `{#if}` block and the `{/` of its end tag, read from
/// `p` on: any number of `{:else if expr}` and `{:else}`, each with its
/// children. A later `{:else}` replaces an earlier one.
pub open spec fn if_branches(
    s: Seq<u8>,
    lang: Language,
    fm: bool,
    p: int,
    else_ifs: Seq<ElseIfModel>,
    else_children: Option<Seq<NodeModel>>,
) -> Parse<(Seq<ElseIfModel>, Option<Seq<NodeModel>>)>
    decreases s.len() - p, 3int,
{
    let a = p + 2 + lit_len(s, p + 2, "else");
    let w = skip_ws(s, a);
    let q = braced_expr(s, w + 2).1;
    if !at(s, p, '{' as u8) {
        Err(fail(SyntaxErrorKind::ExpectSvelteBlockEnd, p))
    } else if at(s, p + 1, '/' as u8) {
        Ok(((else_ifs, else_children), p + 2, fm))
    } else if !at(s, p + 1, ':' as u8) {
        Err(fail(SyntaxErrorKind::ExpectSvelteBlockEnd, behind(s, p + 1)))
    } else if !has_lit(s, p + 2, "else") {
        Err(fail(SyntaxErrorKind::ExpectSvelteElseIfBlock, a))
    } else if at(s, w, 'i' as u8) {
        if !at(s, w + 1, 'f' as u8) {
            Err(fail(SyntaxErrorKind::ExpectSvelteElseIfBlock, w + 1))
        } else if !ahead(s, p, q) {
            Err(stuck(p))
        } else {
            match block_children(s, lang, fm, q, BlockKind::Svelte, Seq::empty()) {
                Err(e) => Err(e),
                Ok((children, r, f)) => if ahead(s, p, r) {
                    if_branches(
                        s,
                        lang,
                        f,
                        r,
                        else_ifs.push(ElseIfModel { expr: braced_expr(s, w + 2).0, children }),
                        else_children,
                    )
                } else {
                    Err(stuck(p))
                },
            }
        }
    } else if at(s, w, '}' as u8) {
        if !ahead(s, p, w + 1) {
            Err(stuck(p))
        } else {
            match block_children(s, lang, fm, w + 1, BlockKind::Svelte, Seq::empty()) {
                Err(e) => Err(e),
                Ok((children, r, f)) => if ahead(s, p, r) {
                    if_branches(s, lang, f, r, else_ifs, Some(children))
                } else {
                    Err(stuck(p))
                },
            }
        }
    } else {
        Err(fail(SyntaxErrorKind::ExpectSvelteElseIfBlock, behind(s, w)))
    }
}

/// The `{#if}` block with the expression `expr` and the children
/// `children`, given what its branches were read as: behind them stand
/// `if`, optional whitespace, and `}`.
pub open spec fn if_block_with(
    s: Seq<u8>,
    expr: Span,
    children: Seq<NodeModel>,
    branches: Parse<(Seq<ElseIfModel>, Option<Seq<NodeModel>>)>,
) -> Parse<IfBlockModel> {
    match branches {
        Err(e) => Err(e),
        Ok(((else_if_blocks, else_children), r, f)) => match block_tag(s, r, "if") {
            Err(b) => Err(fail(SyntaxErrorKind::ExpectSvelteBlockEnd, b)),
            Ok(t) => Ok((IfBlockModel { expr, children, else_if_blocks, else_children }, t, f)),
        },
    }
}

/// `{#if expr} .. {:else if expr} .. {:else} .. {/if}`
pub open spec fn svelte_if_block(s: Seq<u8>, lang: Language, fm: bool, p: int) -> Parse<
    IfBlockModel,
>
    decreases s.len() - p, 0int,
{
    match block_open(s, p, "{#if") {
        Err(a) => Err(fail(SyntaxErrorKind::ExpectSvelteIfBlock, a)),
        Ok(a) => if !ahead(s, p, braced_expr(s, a).1) {
            Err(stuck(p))
        } else {
            match block_children(
                s,
                lang,
                fm,
                braced_expr(s, a).1,
                BlockKind::Svelte,
                Seq::empty(),
            ) {
                Err(e) => Err(e),
                Ok((children, q, f)) => if !ahead(s, p, q) {
                    Err(stuck(p))
                } else {
                    if_block_with(
                        s,
                        braced_expr(s, a).0,
                        children,
                        if_branches(s, lang, f, q, Seq::empty(), None),
                    )
                },
            }
        },
    }
}

/// `{#each expr as binding, index (key)} .. {:else} .. {/each}`
pub open spec fn svelte_each_block(s: Seq<u8>, lang: Language, fm: bool, p: int) -> Parse<
    EachBlockModel,
>
    decreases s.len() - p, 0int,
{
    match each_header(s, p) {
        Err(e) => Err(e),
        Ok((h, q)) => if !ahead(s, p, q) {
            Err(stuck(p))
        } else {
            match block_children(s, lang, fm, q, BlockKind::Svelte, Seq::empty()) {
                Err(e) => Err(e),
                Ok((children, r, f)) => {
                    let r1 = match block_tag(s, r, "{:else") {
                        Ok(t) => t,
                        Err(_) => r,
                    };
                    if !ahead(s, p, r1) {
                        Err(stuck(p))
                    } else {
                        match section_children(s, lang, f, r1, block_tag(s, r, "{:else") is Ok) {
                            Err(e) => Err(e),
                            Ok((else_children, r2, f1)) => match block_tag(s, r2, "{/each") {
                                Err(b) => Err(fail(SyntaxErrorKind::ExpectSvelteBlockEnd, b)),
                                Ok(t) => Ok(
                                    (
                                        EachBlockModel {
                                            expr: h.expr,
                                            binding: h.binding,
                                            index: h.index,
                                            key: h.key,
                                            children,
                                            else_children,
                                        },
                                        t,
                                        f1,
                                    ),
                                ),
                            },
                        }
                    }
                },
            }
        },
    }
}

/// The `{:then}` section of an `{#await}` block.
pub open spec fn then_block(tag: Option<Option<Span>>, children: Option<Seq<NodeModel>>) -> Option<
    ThenModel,
> {
    match (tag, children) {
        (Some(Some(binding)), Some(children)) => Some(ThenModel { binding, children }),
        _ => None,
    }
}

/// The `{:catch}` section of an `{#await}` block.
pub open spec fn catch_block(
    tag: Option<Option<Span>>,
    children: Option<Seq<NodeModel>>,
) -> Option<CatchModel> {
    match (tag, children) {
        (Some(binding), Some(children)) => Some(CatchModel { binding, children }),
        _ => None,
    }
}

/// `{#await expr then binding catch binding} .. {:then binding} ..
/// {:catch binding} .. {/await}`
pub open spec fn svelte_await_block(s: Seq<u8>, lang: Language, fm: bool, p: int) -> Parse<
    AwaitBlockModel,
>
    decreases s.len() - p, 0int,
{
    match await_header(s, p) {
        Err(e) => Err(e),
        Ok((h, q)) => if !ahead(s, p, q) {
            Err(stuck(p))
        } else {
            match block_children(s, lang, fm, q, BlockKind::Svelte, Seq::empty()) {
                Err(e) => Err(e),
                Ok((children, r, f)) => match section(
                    s,
                    r,
                    "{:then",
                    false,
                    SyntaxErrorKind::ExpectSvelteThenBlock,
                ) {
                    Err(e) => Err(e),
                    Ok((then_tag, r1)) => if !ahead(s, p, r1) {
                        Err(stuck(p))
                    } else {
                        match section_children(s, lang, f, r1, then_tag is Some) {
                            Err(e) => Err(e),
                            Ok((then_children, r2, f1)) => match section(
                                s,
                                r2,
                                "{:catch",
                                true,
                                SyntaxErrorKind::ExpectSvelteCatchBlock,
                            ) {
                                Err(e) => Err(e),
                                Ok((catch_tag, r3)) => if !ahead(s, p, r3) {
                                    Err(stuck(p))
                                } else {
                                    match section_children(s, lang, f1, r3, catch_tag is Some) {
                                        Err(e) => Err(e),
                                        Ok((catch_children, r4, f2)) => match block_tag(
                                            s,
                                            r4,
                                            "{/await",
                                        ) {
                                            Err(b) => Err(
                                                fail(SyntaxErrorKind::ExpectSvelteBlockEnd, b),
                                            ),
                                            Ok(t) => Ok(
                                                (
                                                    AwaitBlockModel {
                                                        expr: h.expr,
                                                        then_binding: h.then_binding,
                                                        catch_binding: h.catch_binding,
                                                        children,
                                                        then_block: then_block(
                                                            then_tag,
                                                            then_children,
                                                        ),
                                                        catch_block: catch_block(
                                                            catch_tag,
                                                            catch_children,
                                                        ),
                                                    },
                                                    t,
                                                    f2,
                                                ),
                                            ),
                                        },
                                    }
                                },
                            },
                        }
                    },
                },
            }
        },
    }
}

/// The Jinja block whose body was read as `body`.
pub open spec fn jinja_block(body: Parse<Seq<JinjaPart>>) -> Parse<NodeModel> {
    match body {
        Ok((body, q, f)) => Ok((NodeModel::JinjaBlock(body), q, f)),
        Err(e) => Err(e),
    }
}

/// What the Jinja tag `first`, which ends at `p`, starts: a block, if its
/// name opens one, or else nothing more than itself.
pub open spec fn jinja_after(s: Seq<u8>, lang: Language, fm: bool, p: int, first: JinjaTag) -> Parse<
    NodeModel,
>
    decreases s.len() - p, 5int,
{
    if spec_opens_jinja_block(jinja_tag_name(s, first).text(s)) {
        jinja_block(jinja_body(s, lang, fm, p, first, seq![JinjaPart::Tag(first)]))
    } else {
        Ok((NodeModel::JinjaTag(first), p, fm))
    }
}

/// The rest of the Jinja block that the tag `opener` opened, read from `p`
/// on, behind the parts `body`: children, then a tag. The tag named `end`
/// and the opener's name closes the block; a branch tag goes into the body
/// as it is; any other tag starts a node of its own, which goes into the
/// body as a run of one child.
pub open spec fn jinja_body(
    s: Seq<u8>,
    lang: Language,
    fm: bool,
    p: int,
    opener: JinjaTag,
    body: Seq<JinjaPart>,
) -> Parse<Seq<JinjaPart>>
    decreases s.len() - p, 4int,
{
    match block_children(s, lang, fm, p, BlockKind::Jinja, Seq::empty()) {
        Err(e) => Err(e),
        Ok((c, q, f)) => {
            let body1 = if c.len() > 0 {
                body.push(JinjaPart::Children(c))
            } else {
                body
            };
            match jinja_tag(s, q) {
                Err(e) => Err(e),
                Ok((next, r)) => if !ahead(s, p, r) {
                    Err(stuck(p))
                } else if spec_closes_jinja_block(
                    jinja_tag_name(s, next).text(s),
                    jinja_tag_name(s, opener).text(s),
                ) {
                    Ok((body1.push(JinjaPart::Tag(next)), r, f))
                } else if spec_is_jinja_branch(
                    jinja_tag_name(s, opener).text(s),
                    jinja_tag_name(s, next).text(s),
                ) {
                    jinja_body(s, lang, f, r, opener, body1.push(JinjaPart::Tag(next)))
                } else {
                    match jinja_after(s, lang, f, r, next) {
                        Err(e) => Err(e),
                        Ok((n, t, f1)) => if ahead(s, p, t) {
                            jinja_body(
                                s,
                                lang,
                                f1,
                                t,
                                opener,
                                body1.push(JinjaPart::Children(seq![n])),
                            )
                        } else {
                            Err(stuck(p))
                        },
                    }
                },
            }
        },
    }
}

/// The body of a Vento block with the nodes `c` added: to its last part, if
/// that is a run of children, or else as a new run.
pub open spec fn vento_append(body: Seq<VentoPart>, c: Seq<NodeModel>) -> Seq<VentoPart> {
    if body.len() > 0 && body.last() is Children {
        body.drop_last().push(VentoPart::Children(body.last()->Children_0 + c))
    } else {
        body.push(VentoPart::Children(c))
    }
}

/// The Vento block whose body was read as `body`.
pub open spec fn vento_block(body: Parse<Seq<VentoPart>>) -> Parse<NodeModel> {
    match body {
        Ok((body, q, f)) => Ok((NodeModel::VentoBlock(body), q, f)),
        Err(e) => Err(e),
    }
}

/// What the Vento tag `first`, which ends at `p`, is or starts: a comment
/// `#..#`, an evaluation `>..`, a block, if it opens one, or else an
/// interpolation or a keyword tag.
pub open spec fn vento_after(s: Seq<u8>, lang: Language, fm: bool, p: int, first: Span) -> Parse<
    NodeModel,
>
    decreases s.len() - p, 5int,
{
    let t = first.text(s);
    if t.len() >= 2 && t[0] == '#' as u8 && t.last() == '#' as u8 {
        Ok(
            (
                NodeModel::VentoComment(VentoComment { raw: span(first.start + 1, first.end - 1) }),
                p,
                fm,
            ),
        )
    } else if t.len() >= 1 && t[0] == '>' as u8 {
        Ok(
            (
                NodeModel::VentoEval(VentoEval { raw: span(first.start + 1, first.end as int) }),
                p,
                fm,
            ),
        )
    } else if spec_opens_vento_block(s, first) {
        vento_block(
            vento_body(s, lang, fm, p, first, seq![VentoPart::Tag(VentoTag { tag: first })]),
        )
    } else if spec_is_vento_interpolation(vento_tag_parts(s, first).0.text(s)) {
        Ok((NodeModel::VentoInterpolation(VentoInterpolation { expr: first }), p, fm))
    } else {
        Ok((NodeModel::VentoTag(VentoTag { tag: first }), p, fm))
    }
}

/// The rest of the Vento block that the tag `opener` opened, read from `p`
/// on, behind the parts `body`: children, then a tag. The tag `/` and the
/// opener's name closes the block; the `else` of an `if` goes into the body
/// as it is; any other tag is or starts a node of its own, which joins the
/// children.
pub open spec fn vento_body(
    s: Seq<u8>,
    lang: Language,
    fm: bool,
    p: int,
    opener: Span,
    body: Seq<VentoPart>,
) -> Parse<Seq<VentoPart>>
    decreases s.len() - p, 4int,
{
    match block_children(s, lang, fm, p, BlockKind::Vento, Seq::empty()) {
        Err(e) => Err(e),
        Ok((c, q, f)) => {
            let body1 = if c.len() > 0 {
                vento_append(body, c)
            } else {
                body
            };
            match mustache(s, q) {
                Err(e) => Err(e),
                Ok((next, r)) => if !ahead(s, p, r) {
                    Err(stuck(p))
                } else if spec_closes_vento_block(s, opener, next) {
                    Ok((body1.push(VentoPart::Tag(VentoTag { tag: next })), r, f))
                } else if spec_is_vento_branch(s, opener, next) {
                    vento_body(
                        s,
                        lang,
                        f,
                        r,
                        opener,
                        body1.push(VentoPart::Tag(VentoTag { tag: next })),
                    )
                } else {
                    match vento_after(s, lang, f, r, next) {
                        Err(e) => Err(e),
                        Ok((n, t, f1)) => if ahead(s, p, t) {
                            vento_body(s, lang, f1, t, opener, vento_append(body1, seq![n]))
                        } else {
                            Err(stuck(p))
                        },
                    }
                },
            }
        },
    }
}

/// The parts of an Astro expression with the script text from `a` up to
/// `b` added, which stood before markup: nothing if it is empty; if it is
/// all whitespace, a text node at the end of the last part, where that is a
/// template, and else nothing; otherwise a script part.
pub open spec fn astro_flush(s: Seq<u8>, parts: Seq<AstroPart>, a: int, b: int) -> Seq<AstroPart> {
    if a >= b {
        parts
    } else if all_ws(s, a, b) {
        if parts.len() > 0 && parts.last() is Template {
            parts.drop_last().push(
                AstroPart::Template(
                    parts.last()->Template_0.push(NodeModel::TextNode(text_of(s, a, b))),
                ),
            )
        } else {
            parts
        }
    } else {
        parts.push(AstroPart::Script(span(a, b)))
    }
}

/// The parts of an Astro expression with the node `n` added: to its last
/// part, if that is a template, or else as a new template.
pub open spec fn astro_append(parts: Seq<AstroPart>, n: NodeModel) -> Seq<AstroPart> {
    if parts.len() > 0 && parts.last() is Template {
        parts.drop_last().push(AstroPart::Template(parts.last()->Template_0.push(n)))
    } else {
        parts.push(AstroPart::Template(seq![n]))
    }
}

/// The rest of an Astro expression, read from `p` inside `depth` braces of
/// script code, where `start` is the offset at which the current script
/// text began and `parts` are the parts before it. A `<` that may start a
/// tag starts a node; the `}` that balances the opening `{` ends the
/// expression with the script text before it, empty or not. If the input
/// ends first, the text read last is dropped.
pub open spec fn astro_body(
    s: Seq<u8>,
    lang: Language,
    fm: bool,
    p: int,
    depth: nat,
    start: int,
    parts: Seq<AstroPart>,
) -> Parse<Seq<AstroPart>>
    decreases s.len() - p, 3int,
{
    if p < 0 || p >= s.len() {
        Ok((parts, p, fm))
    } else if s[p] == '{' as u8 {
        astro_body(s, lang, fm, p + 1, depth + 1, start, parts)
    } else if s[p] == '}' as u8 {
        if depth == 0 {
            Ok((parts.push(AstroPart::Script(span(start, p))), p + 1, fm))
        } else {
            astro_body(s, lang, fm, p + 1, (depth - 1) as nat, start, parts)
        }
    } else if s[p] == '<' as u8 && (class_at(s, p + 1, CharClass::TagName) || at(
        s,
        p + 1,
        '!' as u8,
    ) || at(s, p + 1, '>' as u8)) {
        match node(s, lang, fm, p) {
            Err(e) => Err(e),
            Ok((n, q, f)) => if ahead(s, p, q) {
                astro_body(
                    s,
                    lang,
                    f,
                    q,
                    depth,
                    q,
                    astro_append(astro_flush(s, parts, start, p), n),
                )
            } else {
                Err(stuck(p))
            },
        }
    } else {
        astro_body(s, lang, fm, p + 1, depth, start, parts)
    }
}

/// `{ .. }` in Astro.
pub open spec fn astro_expr(s: Seq<u8>, lang: Language, fm: bool, p: int) -> Parse<Seq<AstroPart>>
    decreases s.len() - p, 0int,
{
    if at(s, p, '{' as u8) {
        astro_body(s, lang, fm, p + 1, 0, p + 1, Seq::empty())
    } else {
        Err(fail(SyntaxErrorKind::ExpectAstroExpr, p))
    }
}

} // verus!

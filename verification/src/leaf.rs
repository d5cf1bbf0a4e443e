//! The grammar of the constructs that hold no child nodes: names, attribute
//! values, comments, interpolations, attributes, text, and the scripting
//! expressions that are taken as raw text.
//!
//! Each function reads the source `s` from offset `p` and gives what the
//! construct is and the offset behind it, or the error with which reading
//! fails.

use vstd::prelude::*;
use crate::ast::{
    AstroAttribute, AstroFrontMatter, Attribute, Comment, JinjaComment, JinjaTag, NativeAttribute,
    SvelteAtTag, SvelteAttribute, SvelteInterpolation, TextNode, VueDirective,
};
use crate::error::{fail, SyntaxError, SyntaxErrorKind};
use crate::parser::Language;
use crate::scan::{
    at, balanced, CharClass, class_at, has_lit, has_lit_fold, klen, line_breaks, lit_len,
    lit_len_fold, prefix_len, run_end, skip_ws, spec_is_ascii_whitespace, until,
};
use crate::span::{Span, span};

verus! {

/// What reading one construct gives: its value and the offset behind it.
pub type Scan<T> = Result<(T, int), SyntaxError>;

/// `q` lies behind `p` and inside the source. The recursive rules take this
/// test before they go on at `q`; it is what makes them well-founded. It
/// holds wherever it is taken, since every construct that is read is at
/// least one byte long: [`crate::progress`] proves that.
pub open spec fn ahead(s: Seq<u8>, p: int, q: int) -> bool {
    p < q <= s.len()
}

/// The result of a rule where [`ahead`] fails.
pub open spec fn stuck(p: int) -> SyntaxError {
    fail(SyntaxErrorKind::ExpectElement, p)
}

/// A non-empty run of bytes of class `cl`.
pub open spec fn name(s: Seq<u8>, p: int, cl: CharClass, kind: SyntaxErrorKind) -> Scan<Span> {
    if class_at(s, p, cl) {
        Ok((span(p, run_end(s, p, cl)), run_end(s, p, cl)))
    } else {
        Err(fail(kind, p))
    }
}

/// A tag name; in Astro also the empty name of the fragment `<>`.
#[verifier::opaque]
pub open spec fn tag_name(s: Seq<u8>, lang: Language, p: int) -> Scan<Span> {
    if !class_at(s, p, CharClass::TagName) && lang == Language::Astro && at(s, p, '>' as u8) {
        Ok((span(p, p), p))
    } else {
        name(s, p, CharClass::TagName, SyntaxErrorKind::ExpectTagName)
    }
}

/// An attribute name.
pub open spec fn attr_name(s: Seq<u8>, p: int) -> Scan<Span> {
    name(s, p, CharClass::AttrName, SyntaxErrorKind::ExpectAttrName)
}

/// An identifier.
pub open spec fn identifier(s: Seq<u8>, p: int) -> Scan<Span> {
    name(s, p, CharClass::Identifier, SyntaxErrorKind::ExpectIdentifier)
}

/// An attribute value: quoted, up to the same quote or the end of the input,
/// or else a non-empty run of unquoted value bytes. The span leaves the
/// quotes out.
pub open spec fn attr_value(s: Seq<u8>, p: int) -> Scan<Span> {
    if at(s, p, '"' as u8) {
        Ok(until(s, p + 1, "\""))
    } else if at(s, p, '\'' as u8) {
        Ok(until(s, p + 1, "'"))
    } else {
        name(s, p, CharClass::AttrValue, SyntaxErrorKind::ExpectAttrValue)
    }
}

/// Text between the literals `open` and `close`; without a `close` it runs
/// to the end of the input. Where `open` is missing, the error stands at the
/// first byte that differs.
pub open spec fn delimited(
    s: Seq<u8>,
    p: int,
    open: &str,
    close: &str,
    kind: SyntaxErrorKind,
) -> Scan<Span> {
    if has_lit(s, p, open) {
        Ok(until(s, p + klen(open), close))
    } else {
        Err(fail(kind, p + lit_len(s, p, open)))
    }
}

/// `<!-- raw -->`
#[verifier::opaque]
pub open spec fn comment(s: Seq<u8>, p: int) -> Scan<Comment> {
    match delimited(s, p, "<!--", "-->", SyntaxErrorKind::ExpectComment) {
        Ok((raw, q)) => Ok((Comment { raw }, q)),
        Err(e) => Err(e),
    }
}

/// `{# raw #}`
#[verifier::opaque]
pub open spec fn jinja_comment(s: Seq<u8>, p: int) -> Scan<JinjaComment> {
    match delimited(s, p, "{#", "#}", SyntaxErrorKind::ExpectComment) {
        Ok((raw, q)) => Ok((JinjaComment { raw }, q)),
        Err(e) => Err(e),
    }
}

/// `{% content %}`
#[verifier::opaque]
pub open spec fn jinja_tag(s: Seq<u8>, p: int) -> Scan<JinjaTag> {
    match delimited(s, p, "{%", "%}", SyntaxErrorKind::ExpectJinjaTag) {
        Ok((content, q)) => Ok((JinjaTag { content }, q)),
        Err(e) => Err(e),
    }
}

/// `{{ expr }}`
#[verifier::opaque]
pub open spec fn mustache(s: Seq<u8>, p: int) -> Scan<Span> {
    delimited(s, p, "{{", "}}", SyntaxErrorKind::ExpectMustacheInterpolation)
}

/// `<!doctype html>` in any case, with optional whitespace before `html`
/// and before `>`.
#[verifier::opaque]
pub open spec fn doctype(s: Seq<u8>, p: int) -> Scan<()> {
    let a = p + lit_len_fold(s, p, "<!doctype");
    let b = skip_ws(s, a);
    let c = b + lit_len_fold(s, b, "html");
    let d = skip_ws(s, c);
    if !has_lit_fold(s, p, "<!doctype") {
        Err(fail(SyntaxErrorKind::ExpectDoctype, a))
    } else if !has_lit_fold(s, b, "html") {
        Err(fail(SyntaxErrorKind::ExpectDoctype, c))
    } else if !at(s, d, '>' as u8) {
        Err(fail(SyntaxErrorKind::ExpectDoctype, d))
    } else {
        Ok(((), d + 1))
    }
}

/// A scripting expression behind a `{`: from the first byte that is not
/// whitespace to the `}` that balances the `{`, which is read too. If the
/// input ends first, the expression is empty.
#[verifier::opaque]
pub open spec fn braced_expr(s: Seq<u8>, p: int) -> (Span, int) {
    let a = skip_ws(s, p);
    match balanced(s, a, '{' as u8, '}' as u8, 0) {
        Some(e) => (span(a, e), e + 1),
        None => (span(a, a), s.len() as int),
    }
}

/// A group from the byte `open` to the `close` that balances it, with or
/// without the two. If the input ends first, the group is empty.
pub open spec fn inside(s: Seq<u8>, p: int, open: u8, close: u8, inclusive: bool) -> Scan<Span> {
    let a = if inclusive {
        p
    } else {
        p + 1
    };
    if !at(s, p, open) {
        Err(fail(SyntaxErrorKind::ExpectChar(open as char), p))
    } else {
        match balanced(s, p + 1, open, close, 0) {
            Some(e) => Ok(
                (
                    span(
                        a,
                        if inclusive {
                            e + 1
                        } else {
                            e
                        },
                    ),
                    e + 1,
                ),
            ),
            None => Ok((span(a, a), s.len() as int)),
        }
    }
}

/// The left-hand side of a Svelte destructuring form: `{..}`, `[..]` or an
/// identifier.
pub open spec fn svelte_binding(s: Seq<u8>, p: int) -> Scan<Span> {
    if at(s, p, '{' as u8) {
        inside(s, p, '{' as u8, '}' as u8, true)
    } else if at(s, p, '[' as u8) {
        inside(s, p, '[' as u8, ']' as u8, true)
    } else {
        identifier(s, p)
    }
}

/// Optional whitespace, then either `=`, whitespace and a value, or nothing.
pub open spec fn opt_value(s: Seq<u8>, p: int) -> Scan<Option<Span>> {
    let q = skip_ws(s, p);
    if at(s, q, '=' as u8) {
        match attr_value(s, skip_ws(s, q + 1)) {
            Ok((v, r)) => Ok((Some(v), r)),
            Err(e) => Err(e),
        }
    } else {
        Ok((None, q))
    }
}

/// `name` or `name = value`
pub open spec fn native_attr(s: Seq<u8>, p: int) -> Scan<NativeAttribute> {
    match attr_name(s, p) {
        Err(e) => Err(e),
        Ok((name, q)) => match opt_value(s, q) {
            Err(e) => Err(e),
            Ok((value, r)) => Ok((NativeAttribute { name, value }, r)),
        },
    }
}

/// The byte at `p` is one of the short forms `:`, `@`, `#` of a directive.
pub open spec fn vue_punct(s: Seq<u8>, p: int) -> bool {
    at(s, p, ':' as u8) || at(s, p, '@' as u8) || at(s, p, '#' as u8)
}

/// The name of a Vue directive: `:`, `@`, `#`, or `v-` and an identifier.
pub open spec fn vue_name(s: Seq<u8>, p: int) -> Scan<Span> {
    if vue_punct(s, p) {
        Ok((span(p, p + 1), p + 1))
    } else if at(s, p, 'v' as u8) && at(s, p + 1, '-' as u8) {
        match identifier(s, p + 2) {
            Ok((_, q)) => Ok((span(p, q), q)),
            Err(e) => Err(e),
        }
    } else {
        Err(fail(SyntaxErrorKind::ExpectVueDirective, p))
    }
}

/// A Vue directive: its name; an argument with modifiers, which must follow
/// a short form and may follow `v-name`; and an optional value.
pub open spec fn vue_directive(s: Seq<u8>, p: int) -> Scan<VueDirective> {
    match vue_name(s, p) {
        Err(e) => Err(e),
        Ok((name, q)) => {
            if vue_punct(s, p) || class_at(s, q, CharClass::AttrName) {
                match attr_name(s, q) {
                    Err(e) => Err(e),
                    Ok((arg, r)) => match opt_value(s, r) {
                        Err(e) => Err(e),
                        Ok((value, t)) => Ok(
                            (VueDirective { name, arg_and_modifiers: Some(arg), value }, t),
                        ),
                    },
                }
            } else {
                match opt_value(s, q) {
                    Err(e) => Err(e),
                    Ok((value, t)) => Ok(
                        (VueDirective { name, arg_and_modifiers: None, value }, t),
                    ),
                }
            }
        },
    }
}

/// `{expr}` or `name = {expr}`: the name, if there is one, and the
/// expression.
pub open spec fn braced_attr(s: Seq<u8>, p: int, kind: SyntaxErrorKind) -> Scan<
    (Option<Span>, Span),
> {
    if at(s, p, '{' as u8) {
        Ok(((None, braced_expr(s, p + 1).0), braced_expr(s, p + 1).1))
    } else {
        match attr_name(s, p) {
            Err(e) => Err(e),
            Ok((name, q)) => {
                let a = skip_ws(s, q);
                let b = skip_ws(s, a + 1);
                if !at(s, a, '=' as u8) {
                    Err(fail(kind, a))
                } else if !at(s, b, '{' as u8) {
                    Err(fail(kind, b))
                } else {
                    Ok(((Some(name), braced_expr(s, b + 1).0), braced_expr(s, b + 1).1))
                }
            },
        }
    }
}

/// A Svelte attribute: `{expr}` or `name = {expr}`.
pub open spec fn svelte_attr(s: Seq<u8>, p: int) -> Scan<SvelteAttribute> {
    match braced_attr(s, p, SyntaxErrorKind::ExpectSvelteAttr) {
        Ok(((name, expr), q)) => Ok((SvelteAttribute { name, expr }, q)),
        Err(e) => Err(e),
    }
}

/// An Astro attribute: `{expr}` or `name = {expr}`.
pub open spec fn astro_attr(s: Seq<u8>, p: int) -> Scan<AstroAttribute> {
    match braced_attr(s, p, SyntaxErrorKind::ExpectAstroAttr) {
        Ok(((name, expr), q)) => Ok((AstroAttribute { name, expr }, q)),
        Err(e) => Err(e),
    }
}

/// A native attribute, as an attribute.
pub open spec fn native(s: Seq<u8>, p: int) -> Scan<Attribute> {
    match native_attr(s, p) {
        Ok((a, q)) => Ok((Attribute::NativeAttribute(a), q)),
        Err(e) => Err(e),
    }
}

/// One attribute. Vue, Svelte and Astro first try their own form and fall
/// back to the native one.
pub open spec fn attr(s: Seq<u8>, lang: Language, p: int) -> Scan<Attribute> {
    match lang {
        Language::Vue => match vue_directive(s, p) {
            Ok((a, q)) => Ok((Attribute::VueDirective(a), q)),
            Err(_) => native(s, p),
        },
        Language::Svelte => match svelte_attr(s, p) {
            Ok((a, q)) => Ok((Attribute::SvelteAttribute(a), q)),
            Err(_) => native(s, p),
        },
        Language::Astro => match astro_attr(s, p) {
            Ok((a, q)) => Ok((Attribute::AstroAttribute(a), q)),
            Err(_) => native(s, p),
        },
        _ => native(s, p),
    }
}

/// What stands between a tag name and the end of the open tag.
pub ghost struct OpenTag {
    pub attrs: Seq<Attribute>,
    pub first_attr_same_line: bool,
    pub self_closing: bool,
}

/// The attributes of an open tag and its end, `>` or `/>`, read from `p`
/// with the attributes `acc` already read.
#[verifier::opaque]
pub open spec fn open_tag(s: Seq<u8>, lang: Language, p: int, acc: Seq<Attribute>, same_line: bool) -> Scan<OpenTag>
    decreases s.len() - p,
{
    if at(s, p, '/' as u8) {
        if at(s, p + 1, '>' as u8) {
            Ok(
                (
                    OpenTag { attrs: acc, first_attr_same_line: same_line, self_closing: true },
                    p + 2,
                ),
            )
        } else {
            Err(fail(SyntaxErrorKind::ExpectSelfCloseTag, p + 1))
        }
    } else if at(s, p, '>' as u8) {
        Ok((OpenTag { attrs: acc, first_attr_same_line: same_line, self_closing: false }, p + 1))
    } else if at(s, p, '\n' as u8) {
        open_tag(s, lang, p + 1, acc, same_line && acc.len() > 0)
    } else if class_at(s, p, CharClass::Whitespace) {
        open_tag(s, lang, p + 1, acc, same_line)
    } else {
        match attr(s, lang, p) {
            Err(e) => Err(e),
            Ok((a, q)) => if ahead(s, p, q) {
                open_tag(s, lang, q, acc.push(a), same_line)
            } else {
                Err(stuck(p))
            },
        }
    }
}

/// Whether text that runs up to `p` ends there: at a `<` that may start a
/// tag, at a `{` that the dialect reads, or at the `---` of a front matter
/// that is still to come.
pub open spec fn text_boundary(s: Seq<u8>, lang: Language, fm: bool, p: int) -> bool {
    if at(s, p, '{' as u8) {
        match lang {
            Language::Html => false,
            Language::Vue | Language::Vento => at(s, p + 1, '{' as u8),
            Language::Svelte | Language::Astro => true,
            Language::Jinja => at(s, p + 1, '%' as u8) || at(s, p + 1, '{' as u8) || at(
                s,
                p + 1,
                '#' as u8,
            ),
        }
    } else if at(s, p, '<' as u8) {
        class_at(s, p + 1, CharClass::TagName) || at(s, p + 1, '/' as u8) || at(
            s,
            p + 1,
            '!' as u8,
        ) || (at(s, p + 1, '>' as u8) && lang == Language::Astro)
    } else if at(s, p, '-' as u8) {
        lang == Language::Astro && !fm && at(s, p + 1, '-' as u8) && at(s, p + 2, '-' as u8)
    } else {
        false
    }
}

/// The first boundary of text at or after `p`, or the end of the input.
pub open spec fn text_end(s: Seq<u8>, lang: Language, fm: bool, p: int) -> int
    decreases s.len() - p,
{
    if p < 0 || p >= s.len() {
        s.len() as int
    } else if text_boundary(s, lang, fm, p) {
        p
    } else {
        text_end(s, lang, fm, p + 1)
    }
}

/// The text node of the bytes from `a` up to `b`.
pub open spec fn text_of(s: Seq<u8>, a: int, b: int) -> TextNode {
    TextNode { raw: span(a, b), line_breaks: line_breaks(s, a, b) as u32 }
}

/// A text node: one byte, whatever it is, and what follows up to the next
/// boundary. Text may not start where a construct of the dialect starts:
/// not with `{` in Svelte, and not with `{{` in Vue, where the error stands
/// at the second brace. A single `{` starts text in Vue.
#[verifier::opaque]
pub open spec fn text_node(s: Seq<u8>, lang: Language, fm: bool, p: int) -> Scan<TextNode> {
    if !(0 <= p < s.len()) || (lang == Language::Svelte && s[p] == '{' as u8) {
        Err(fail(SyntaxErrorKind::ExpectTextNode, p))
    } else if lang == Language::Vue && s[p] == '{' as u8 && at(s, p + 1, '{' as u8) {
        Err(fail(SyntaxErrorKind::ExpectTextNode, p + 1))
    } else {
        Ok((text_of(s, p, text_end(s, lang, fm, p + 1)), text_end(s, lang, fm, p + 1)))
    }
}

/// Raw text ends before `</` and the element's name, up to ASCII case, or
/// as much of that name as the input still holds.
pub open spec fn raw_text_boundary(s: Seq<u8>, p: int, tag: Seq<u8>) -> bool {
    at(s, p, '<' as u8) && at(s, p + 1, '/' as u8) && (prefix_len(s, p + 2, tag, true, 0)
        == tag.len() || p + 2 + prefix_len(s, p + 2, tag, true, 0) == s.len())
}

/// The first end of raw text at or after `p`, or the end of the input.
pub open spec fn raw_text_end(s: Seq<u8>, p: int, tag: Seq<u8>) -> int
    decreases s.len() - p,
{
    if p < 0 || p >= s.len() {
        s.len() as int
    } else if raw_text_boundary(s, p, tag) {
        p
    } else {
        raw_text_end(s, p + 1, tag)
    }
}

/// The raw text inside the element named by `tag`, from `p` on; it may be
/// empty.
#[verifier::opaque]
pub open spec fn raw_text_node(s: Seq<u8>, p: int, tag: Span) -> (TextNode, int) {
    (text_of(s, p, raw_text_end(s, p, tag.text(s))), raw_text_end(s, p, tag.text(s)))
}

/// `{@name expr}`
#[verifier::opaque]
pub open spec fn svelte_at_tag(s: Seq<u8>, p: int) -> Scan<SvelteAtTag> {
    if !has_lit(s, p, "{@") {
        Err(fail(SyntaxErrorKind::ExpectSvelteAtTag, p + lit_len(s, p, "{@")))
    } else {
        match identifier(s, p + klen("{@")) {
            Err(e) => Err(e),
            Ok((name, q)) => Ok(
                (
                    SvelteAtTag { name, expr: braced_expr(s, skip_ws(s, q)).0 },
                    braced_expr(s, skip_ws(s, q)).1,
                ),
            ),
        }
    }
}

/// `{expr}`
#[verifier::opaque]
pub open spec fn svelte_interpolation(s: Seq<u8>, p: int) -> Scan<SvelteInterpolation> {
    if at(s, p, '{' as u8) {
        Ok((SvelteInterpolation { expr: braced_expr(s, p + 1).0 }, braced_expr(s, p + 1).1))
    } else {
        Err(fail(SyntaxErrorKind::ExpectSvelteInterpolation, p))
    }
}

/// The top of the stack of open delimiters is one of `a`, `b`.
pub open spec fn top_is(stack: Seq<u8>, a: u8, b: u8) -> bool {
    stack.len() > 0 && (stack.last() == a || stack.last() == b)
}

/// Script code may stand here: at top level, or directly inside `{` or
/// `${`.
pub open spec fn in_code(stack: Seq<u8>) -> bool {
    stack.len() == 0 || top_is(stack, '$' as u8, '{' as u8)
}

/// Inside a string of any of the three kinds.
pub open spec fn in_string(stack: Seq<u8>) -> bool {
    top_is(stack, '\'' as u8, '"' as u8) || top_is(stack, '`' as u8, '`' as u8)
}

/// The offset of the `---` that closes a front matter, looked for from `p`
/// with the delimiters in `stack` open: strings, `${`, `{`, and comments
/// (`/` for a line comment, `*` for a block comment). `None` if the input
/// ends first.
pub open spec fn fence(s: Seq<u8>, p: int, stack: Seq<u8>) -> Option<int>
    decreases s.len() - p,
{
    if p < 0 || p >= s.len() {
        None
    } else {
        let c = s[p];
        if c == '-' as u8 && stack.len() == 0 {
            if at(s, p + 1, '-' as u8) && at(s, p + 2, '-' as u8) {
                Some(p)
            } else {
                fence(s, p + 1, stack)
            }
        } else if c == '\'' as u8 || c == '"' as u8 || c == '`' as u8 {
            if top_is(stack, c, c) {
                fence(s, p + 1, stack.drop_last())
            } else if in_code(stack) {
                fence(s, p + 1, stack.push(c))
            } else {
                fence(s, p + 1, stack)
            }
        } else if c == '$' as u8 && top_is(stack, '`' as u8, '`' as u8) {
            if at(s, p + 1, '{' as u8) {
                fence(s, p + 2, stack.push('$' as u8))
            } else {
                fence(s, p + 1, stack)
            }
        } else if c == '{' as u8 && in_code(stack) {
            fence(s, p + 1, stack.push('{' as u8))
        } else if c == '}' as u8 && top_is(stack, '$' as u8, '{' as u8) {
            fence(s, p + 1, stack.drop_last())
        } else if c == '/' as u8 && (stack.len() == 0 || top_is(stack, '$' as u8, '}' as u8)) {
            if at(s, p + 1, '/' as u8) || at(s, p + 1, '*' as u8) {
                fence(s, p + 2, stack.push(s[p + 1]))
            } else {
                fence(s, p + 1, stack)
            }
        } else if c == '\n' as u8 {
            if top_is(stack, '/' as u8, '/' as u8) {
                fence(s, p + 1, stack.drop_last())
            } else {
                fence(s, p + 1, stack)
            }
        } else if c == '*' as u8 {
            if at(s, p + 1, '/' as u8) && top_is(stack, '*' as u8, '*' as u8) {
                fence(s, p + 2, stack.drop_last())
            } else {
                fence(s, p + 1, stack)
            }
        } else if c == '\\' as u8 && in_string(stack) {
            if p + 2 <= s.len() {
                fence(s, p + 2, stack)
            } else {
                None
            }
        } else {
            fence(s, p + 1, stack)
        }
    }
}

/// The front matter of an Astro file: `---`, script code, `---`. The span
/// is the code between the fences; if the input ends before the second
/// fence, it is empty.
#[verifier::opaque]
pub open spec fn front_matter(s: Seq<u8>, p: int) -> Scan<AstroFrontMatter> {
    let a = p + klen("---");
    if !has_lit(s, p, "---") {
        Err(fail(SyntaxErrorKind::ExpectAstroFrontMatter, p + lit_len(s, p, "---")))
    } else {
        match fence(s, a, Seq::empty()) {
            Some(e) => Ok((AstroFrontMatter { raw: span(a, e) }, e + 3)),
            None => Ok((AstroFrontMatter { raw: span(a, a) }, s.len() as int)),
        }
    }
}

/// The header of a Svelte block: the literal `kw`, such as `{#if`, and one
/// byte of whitespace. Gives the offset behind them, or the offset of the
/// first byte that differs.
#[verifier::opaque]
pub open spec fn block_open(s: Seq<u8>, p: int, kw: &str) -> Result<int, int> {
    let a = p + lit_len(s, p, kw);
    if has_lit(s, p, kw) && class_at(s, a, CharClass::Whitespace) {
        Ok(a + 1)
    } else {
        Err(a)
    }
}

/// The literal `kw`, such as `{/if`, optional whitespace, and `}`. Gives
/// the offset behind them, or the offset of the first byte that differs.
#[verifier::opaque]
pub open spec fn block_tag(s: Seq<u8>, p: int, kw: &str) -> Result<int, int> {
    let a = p + lit_len(s, p, kw);
    if !has_lit(s, p, kw) {
        Err(a)
    } else if at(s, skip_ws(s, a), '}' as u8) {
        Ok(skip_ws(s, a) + 1)
    } else {
        Err(skip_ws(s, a))
    }
}

/// The expression of `{#each`: it ends before the whitespace that is
/// followed by `as`. Read from `p`, where `end` is the offset of the byte
/// read last; gives the end of the expression and the offset behind `as`.
pub open spec fn each_expr(s: Seq<u8>, p: int, end: int) -> (int, int)
    decreases s.len() - p,
{
    if p < 0 || p >= s.len() {
        (end, p)
    } else if spec_is_ascii_whitespace(s[p]) {
        let q = skip_ws(s, p + 1);
        if has_lit(s, q, "as") {
            (p, q + klen("as"))
        } else if ahead(s, p, q) {
            each_expr(s, q, p)
        } else {
            (p, q)
        }
    } else {
        each_expr(s, p + 1, p)
    }
}

/// The expression of `{#await`: it ends before the whitespace that is
/// followed by `then` or `catch` outside of braces, or before the `}` that
/// closes the tag. Read from `p` inside `depth` braces, where `end` is the
/// offset of the byte read last; gives the end of the expression and the
/// offset at which reading goes on.
pub open spec fn await_expr(s: Seq<u8>, p: int, depth: nat, end: int) -> (int, int)
    decreases s.len() - p,
{
    if p < 0 || p >= s.len() {
        (end, p)
    } else if spec_is_ascii_whitespace(s[p]) {
        let q = skip_ws(s, p + 1);
        if depth == 0 && (has_lit(s, q, "then") || has_lit(s, q, "catch")) {
            (p, q)
        } else if ahead(s, p, q) {
            await_expr(s, q, depth, end)
        } else {
            (end, q)
        }
    } else if s[p] == '{' as u8 {
        await_expr(s, p + 1, depth + 1, p)
    } else if s[p] == '}' as u8 {
        if depth == 0 {
            (p, p)
        } else {
            await_expr(s, p + 1, (depth - 1) as nat, p)
        }
    } else {
        await_expr(s, p + 1, depth, p)
    }
}

/// An optional keyword with a binding behind it, as `then x` in the tag
/// `{#await p then x}`. Bytes of the keyword that stand at `p` are read
/// even where the whole keyword does not.
pub open spec fn opt_binding(s: Seq<u8>, p: int, kw: &str) -> Scan<Option<Span>> {
    let a = skip_ws(s, p);
    let b = a + lit_len(s, a, kw);
    if has_lit(s, a, kw) {
        match svelte_binding(s, skip_ws(s, b)) {
            Ok((x, q)) => Ok((Some(x), q)),
            Err(e) => Err(e),
        }
    } else {
        Ok((None, b))
    }
}

/// The head of an `{#each}` block.
#[derive(Clone, Copy, Debug)]
pub struct EachHeader {
    pub expr: Span,
    pub binding: Span,
    pub index: Option<Span>,
    pub key: Option<Span>,
}

/// `, index`, if it is there.
pub open spec fn each_index(s: Seq<u8>, p: int) -> Scan<Option<Span>> {
    let w = skip_ws(s, p);
    if at(s, w, ',' as u8) {
        match identifier(s, skip_ws(s, w + 1)) {
            Ok((i, q)) => Ok((Some(i), q)),
            Err(e) => Err(e),
        }
    } else {
        Ok((None, w))
    }
}

/// `(key)`, if it is there; the span leaves the brackets out.
pub open spec fn each_key(s: Seq<u8>, p: int) -> Scan<Option<Span>> {
    let w = skip_ws(s, p);
    if at(s, w, '(' as u8) {
        match inside(s, w, '(' as u8, ')' as u8, false) {
            Ok((k, q)) => Ok((Some(k), q)),
            Err(e) => Err(e),
        }
    } else {
        Ok((None, w))
    }
}

/// `{#each expr as binding, index (key)}`
#[verifier::opaque]
pub open spec fn each_header(s: Seq<u8>, p: int) -> Scan<EachHeader> {
    match block_open(s, p, "{#each") {
        Err(a) => Err(fail(SyntaxErrorKind::ExpectSvelteIfBlock, a)),
        Ok(a) => {
            let start = skip_ws(s, a);
            let (end, q) = each_expr(s, start, start);
            match svelte_binding(s, skip_ws(s, q)) {
                Err(e) => Err(e),
                Ok((binding, q1)) => match each_index(s, q1) {
                    Err(e) => Err(e),
                    Ok((index, q2)) => match each_key(s, q2) {
                        Err(e) => Err(e),
                        Ok((key, q3)) => if at(s, skip_ws(s, q3), '}' as u8) {
                            Ok(
                                (
                                    EachHeader { expr: span(start, end), binding, index, key },
                                    skip_ws(s, q3) + 1,
                                ),
                            )
                        } else {
                            Err(fail(SyntaxErrorKind::ExpectSvelteEachBlock, skip_ws(s, q3)))
                        },
                    },
                },
            }
        },
    }
}

/// The head of an `{#await}` block.
#[derive(Clone, Copy, Debug)]
pub struct AwaitHeader {
    pub expr: Span,
    pub then_binding: Option<Span>,
    pub catch_binding: Option<Span>,
}

/// `{#await expr then binding catch binding}`
#[verifier::opaque]
pub open spec fn await_header(s: Seq<u8>, p: int) -> Scan<AwaitHeader> {
    match block_open(s, p, "{#await") {
        Err(a) => Err(fail(SyntaxErrorKind::ExpectSvelteIfBlock, a)),
        Ok(a) => {
            let start = skip_ws(s, a);
            let (end, q) = await_expr(s, start, 0, start);
            match opt_binding(s, q, "then") {
                Err(e) => Err(e),
                Ok((then_binding, q1)) => match opt_binding(s, q1, "catch") {
                    Err(e) => Err(e),
                    Ok((catch_binding, q2)) => if at(s, skip_ws(s, q2), '}' as u8) {
                        Ok(
                            (
                                AwaitHeader { expr: span(start, end), then_binding, catch_binding },
                                skip_ws(s, q2) + 1,
                            ),
                        )
                    } else {
                        Err(fail(SyntaxErrorKind::ExpectChar('}'), skip_ws(s, q2)))
                    },
                },
            }
        },
    }
}

/// A section tag inside an `{#await}` block: the literal `kw`, such as
/// `{:then`, a binding, and `}`. Where `kw` does not stand at `p` there is
/// no section and nothing is read. The binding may be left out where
/// `optional` says so.
#[verifier::opaque]
pub open spec fn section(
    s: Seq<u8>,
    p: int,
    kw: &str,
    optional: bool,
    kind: SyntaxErrorKind,
) -> Scan<Option<Option<Span>>> {
    let w = skip_ws(s, p + klen(kw));
    if !has_lit(s, p, kw) {
        Ok((None, p))
    } else if optional && at(s, w, '}' as u8) {
        Ok((Some(None), w + 1))
    } else {
        match svelte_binding(s, w) {
            Err(e) => Err(e),
            Ok((b, q)) => if at(s, skip_ws(s, q), '}' as u8) {
                Ok((Some(Some(b)), skip_ws(s, q) + 1))
            } else {
                Err(fail(kind, skip_ws(s, q)))
            },
        }
    }
}

/// The end tag `</name>` at `p`, where `name` is the name of the open tag
/// up to ASCII case and whitespace may stand before `>`: the offset behind
/// it.
#[verifier::opaque]
pub open spec fn close_tag(s: Seq<u8>, lang: Language, p: int, tag: Span) -> Result<
    int,
    SyntaxError,
> {
    match tag_name(s, lang, p + 2) {
        Err(e) => Err(e),
        Ok((name, q)) => if !crate::names::text_eq(name.text(s), tag.text(s), true) {
            Err(fail(SyntaxErrorKind::ExpectCloseTag, p + 1))
        } else if at(s, skip_ws(s, q), '>' as u8) {
            Ok(skip_ws(s, q) + 1)
        } else {
            Err(fail(SyntaxErrorKind::ExpectCloseTag, skip_ws(s, q)))
        },
    }
}

/// Every byte of `s` from `a` up to `b` is ASCII whitespace.
pub open spec fn all_ws(s: Seq<u8>, a: int, b: int) -> bool {
    run_end(s.subrange(0, b), a, CharClass::Whitespace) == b
}

} // verus!

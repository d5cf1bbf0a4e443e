//! Rules that go by the name at the head of a tag: void elements, raw-text
//! elements, and the openers and closers of Jinja and Vento blocks.

use vstd::prelude::*;
use vstd::slice::slice_subrange;
use vstd::string::StringSliceAdditionalSpecFns;
use crate::ast::JinjaTag;
use crate::parser::Language;
use crate::scan::{
    CharClass, run_end, same_byte, skip_white_space, spec_same_byte, spec_white_space_len,
    spec_white_space_len_before, trim_white_space_end, trimmed,
};
use crate::span::{Span, span};

verus! {

/// Equality of two texts, exact or up to ASCII case.
pub open spec fn text_eq(x: Seq<u8>, y: Seq<u8>, fold: bool) -> bool {
    x.len() == y.len() && forall|i: int|
        0 <= i < x.len() ==> spec_same_byte(#[trigger] x[i], y[i], fold)
}

/// The text is the name `kw`, read exactly or up to ASCII case.
pub open spec fn is_name(t: Seq<u8>, kw: &str, fold: bool) -> bool {
    text_eq(t, kw.spec_bytes(), fold)
}

/// The text is the literal `kw`.
pub open spec fn is_kw(t: Seq<u8>, kw: &str) -> bool {
    is_name(t, kw, false)
}

/// The text starts with `pat`.
pub open spec fn spec_starts_with(t: Seq<u8>, pat: Seq<u8>) -> bool {
    t.len() >= pat.len() && text_eq(t.subrange(0, pat.len() as int), pat, false)
}

/// The byte `c` occurs in the text.
pub open spec fn spec_contains(t: Seq<u8>, c: u8) -> bool {
    exists|i: int| 0 <= i < t.len() && #[trigger] t[i] == c
}

/// One of the HTML elements that have no end tag.
pub open spec fn is_void_name(t: Seq<u8>, fold: bool) -> bool {
    is_name(t, "area", fold) || is_name(t, "base", fold) || is_name(t, "br", fold) || is_name(
        t,
        "col",
        fold,
    ) || is_name(t, "embed", fold) || is_name(t, "hr", fold) || is_name(t, "img", fold)
        || is_name(t, "input", fold) || is_name(t, "link", fold) || is_name(t, "meta", fold)
        || is_name(t, "param", fold) || is_name(t, "source", fold) || is_name(t, "track", fold)
        || is_name(t, "wbr", fold)
}

/// Whether a dialect reads the names of void elements up to ASCII case.
/// The component dialects do not: there `<Link>` is a component, not the
/// void `link`.
pub open spec fn folds_tag_names(lang: Language) -> bool {
    lang == Language::Html || lang == Language::Jinja || lang == Language::Vento
}

/// The tag name `t` is that of a void element in dialect `lang`.
#[verifier::opaque]
pub open spec fn spec_is_void_element(t: Seq<u8>, lang: Language) -> bool {
    is_void_name(t, folds_tag_names(lang))
}

/// The content of `script`, `style`, `pre` and `textarea` is raw text.
#[verifier::opaque]
pub open spec fn spec_is_raw_text_tag(t: Seq<u8>) -> bool {
    is_name(t, "script", true) || is_name(t, "style", true) || is_name(t, "pre", true)
        || is_name(t, "textarea", true)
}

/// The name of a Jinja tag: its first word, behind leading `+` and `-` and
/// then whitespace. The whitespace that is dropped before the word is any
/// whitespace character; the word ends before ASCII whitespace.
#[verifier::opaque]
pub open spec fn jinja_tag_name(s: Seq<u8>, tag: JinjaTag) -> Span {
    let t = s.subrange(0, tag.content.end as int);
    let a = skip_white_space(t, run_end(t, tag.content.start as int, CharClass::Sign));
    span(a, run_end(t, a, CharClass::NotWhitespace))
}

/// A Jinja tag of this name opens a block.
#[verifier::opaque]
pub open spec fn spec_opens_jinja_block(t: Seq<u8>) -> bool {
    is_kw(t, "for") || is_kw(t, "if") || is_kw(t, "macro") || is_kw(t, "call") || is_kw(
        t,
        "filter",
    ) || is_kw(t, "block") || is_kw(t, "apply") || is_kw(t, "autoescape") || is_kw(t, "embed")
        || is_kw(t, "with")
}

/// `t` is `end` followed by `name`.
#[verifier::opaque]
pub open spec fn spec_closes_jinja_block(t: Seq<u8>, name: Seq<u8>) -> bool {
    spec_starts_with(t, "end".spec_bytes()) && text_eq(
        t.subrange("end".spec_bytes().len() as int, t.len() as int),
        name,
        false,
    )
}

/// A tag named `t` continues the block that a tag named `opener` opened:
/// `elif`, `elseif` and `else` do so for `if` and `for`.
#[verifier::opaque]
pub open spec fn spec_is_jinja_branch(opener: Seq<u8>, t: Seq<u8>) -> bool {
    (is_kw(opener, "if") || is_kw(opener, "for")) && (is_kw(t, "elif") || is_kw(t, "elseif")
        || is_kw(t, "else"))
}

/// A Vento tag without the whitespace characters around it, split at its
/// first ASCII whitespace into its name and the rest.
#[verifier::opaque]
pub open spec fn vento_tag_parts(s: Seq<u8>, tag: Span) -> (Span, Span) {
    let a = trimmed(s, tag.start as int, tag.end as int).start as int;
    let b = trimmed(s, tag.start as int, tag.end as int).end as int;
    let e = run_end(s.subrange(0, b), a, CharClass::NotWhitespace);
    if e < b {
        (span(a, e), span(e + 1, b))
    } else {
        (span(a, b), span(b, b))
    }
}

/// A Vento tag with this name and rest declares a function: `function`,
/// `async function` or `export function`.
#[verifier::opaque]
pub open spec fn spec_is_vento_function(name: Seq<u8>, rest: Seq<u8>) -> bool {
    is_kw(name, "function") || ((is_kw(name, "async") || is_kw(name, "export"))
        && spec_starts_with(rest, "function".spec_bytes()))
}

/// The Vento tag opens a block: `for`, `if`, `layout`, a function, or a
/// `set` or `export` without `=`.
#[verifier::opaque]
pub open spec fn spec_opens_vento_block(s: Seq<u8>, tag: Span) -> bool {
    let (name, rest) = vento_tag_parts(s, tag);
    is_kw(name.text(s), "for") || is_kw(name.text(s), "if") || is_kw(name.text(s), "layout") || ((
    is_kw(name.text(s), "set") || is_kw(name.text(s), "export")) && !spec_contains(
        tag.text(s),
        '=' as u8,
    )) || spec_is_vento_function(name.text(s), rest.text(s))
}

/// The tag `next` closes the Vento block that the tag `opener` opened: its
/// name, without whitespace characters around it, is `/` followed by the
/// opener's name, or `/function` for any function.
#[verifier::opaque]
pub open spec fn spec_closes_vento_block(s: Seq<u8>, opener: Span, next: Span) -> bool {
    let (name, rest) = vento_tag_parts(s, opener);
    let next_name = vento_tag_parts(s, next).0;
    let t = trimmed(s, next_name.start as int, next_name.end as int).text(s);
    t.len() >= 1 && t[0] == '/' as u8 && (text_eq(
        t.subrange(1, t.len() as int),
        name.text(s),
        false,
    ) || (spec_is_vento_function(name.text(s), rest.text(s)) && is_kw(
        t.subrange(1, t.len() as int),
        "function",
    )))
}

/// The tag `next` is the `else` of the `if` block that the tag `opener`
/// opened.
#[verifier::opaque]
pub open spec fn spec_is_vento_branch(s: Seq<u8>, opener: Span, next: Span) -> bool {
    is_kw(vento_tag_parts(s, opener).0.text(s), "if") && is_kw(
        vento_tag_parts(s, next).0.text(s),
        "else",
    )
}

/// A Vento tag whose first word is none of the keywords is an
/// interpolation.
#[verifier::opaque]
pub open spec fn spec_is_vento_interpolation(t: Seq<u8>) -> bool {
    !(is_kw(t, "if") || is_kw(t, "else") || is_kw(t, "for") || is_kw(t, "set") || is_kw(
        t,
        "include",
    ) || is_kw(t, "layout") || is_kw(t, "async") || is_kw(t, "function") || is_kw(t, "import")
        || is_kw(t, "export"))
}

/// Compares two texts, exactly or up to ASCII case.
pub fn bytes_eq(x: &[u8], y: &[u8], fold: bool) -> (r: bool)
    ensures
        r == text_eq(x@, y@, fold),
{
    if x.len() != y.len() {
        return false;
    }
    let mut i: usize = 0;
    while i < x.len()
        invariant
            x@.len() == y@.len(),
            i <= x@.len(),
            forall|j: int| 0 <= j < i ==> spec_same_byte(#[trigger] x@[j], y@[j], fold),
        decreases x@.len() - i,
    {
        if !same_byte(x[i], y[i], fold) {
            return false;
        }
        i = i + 1;
    }
    true
}

/// Whether the text is the name `kw`, read exactly or up to ASCII case.
pub fn name_is(t: &[u8], kw: &str, fold: bool) -> (r: bool)
    ensures
        r == is_name(t@, kw, fold),
{
    bytes_eq(t, kw.as_bytes(), fold)
}

/// Whether the text starts with `pat`.
pub fn starts_with(t: &[u8], pat: &[u8]) -> (r: bool)
    ensures
        r == spec_starts_with(t@, pat@),
{
    t.len() >= pat.len() && bytes_eq(slice_subrange(t, 0, pat.len()), pat, false)
}

/// Whether the byte `c` occurs in the text.
pub fn contains(t: &[u8], c: u8) -> (r: bool)
    ensures
        r == spec_contains(t@, c),
{
    let mut i: usize = 0;
    while i < t.len()
        invariant
            i <= t@.len(),
            forall|j: int| 0 <= j < i ==> #[trigger] t@[j] != c,
        decreases t@.len() - i,
    {
        if t[i] == c {
            return true;
        }
        i = i + 1;
    }
    false
}

/// Whether an element of this name has no end tag in the given dialect.
pub fn is_void_element(name: &[u8], language: Language) -> (r: bool)
    ensures
        r == spec_is_void_element(name@, language),
{
    reveal(spec_is_void_element);
    let fold = language == Language::Html || language == Language::Jinja || language
        == Language::Vento;
    name_is(name, "area", fold) || name_is(name, "base", fold) || name_is(name, "br", fold)
        || name_is(name, "col", fold) || name_is(name, "embed", fold) || name_is(
        name,
        "hr",
        fold,
    ) || name_is(name, "img", fold) || name_is(name, "input", fold) || name_is(
        name,
        "link",
        fold,
    ) || name_is(name, "meta", fold) || name_is(name, "param", fold) || name_is(
        name,
        "source",
        fold,
    ) || name_is(name, "track", fold) || name_is(name, "wbr", fold)
}

/// Whether the content of an element of this name is raw text.
pub fn is_raw_text_tag(name: &[u8]) -> (r: bool)
    ensures
        r == spec_is_raw_text_tag(name@),
{
    reveal(spec_is_raw_text_tag);
    name_is(name, "script", true) || name_is(name, "style", true) || name_is(name, "pre", true)
        || name_is(name, "textarea", true)
}

/// The end of the longest run of bytes of class `cl` that starts at `from`
/// and stays before `limit`.
pub fn run_end_within(source: &[u8], from: usize, limit: usize, cl: CharClass) -> (e: usize)
    requires
        from <= limit <= source@.len(),
    ensures
        e == run_end(source@.subrange(0, limit as int), from as int, cl),
        from <= e <= limit,
{
    let ghost t = source@.subrange(0, limit as int);
    let mut i = from;
    while i < limit && cl.has(source[i])
        invariant
            from <= i <= limit <= source@.len(),
            t == source@.subrange(0, limit as int),
            run_end(t, from as int, cl) == run_end(t, i as int, cl),
        decreases limit - i,
    {
        i = i + 1;
    }
    i
}

/// The length in bytes of the whitespace character whose UTF-8 encoding
/// starts at `from` and ends at or before `limit`, or 0 if there is none.
pub fn white_space_len(source: &[u8], from: usize, limit: usize) -> (n: usize)
    requires
        from <= limit <= source@.len(),
    ensures
        n == spec_white_space_len(source@.subrange(0, limit as int), from as int),
        from + n <= limit,
{
    let left = limit - from;
    if left == 0 {
        return 0;
    }
    let a = source[from];
    if (0x09 <= a && a <= 0x0d) || a == 0x20 {
        return 1;
    }
    if left < 2 {
        return 0;
    }
    let b = source[from + 1];
    if a == 0xc2 && (b == 0x85 || b == 0xa0) {
        return 2;
    }
    if left < 3 {
        return 0;
    }
    let c = source[from + 2];
    if (a == 0xe1 && b == 0x9a && c == 0x80) || (a == 0xe2 && b == 0x80 && ((0x80 <= c && c
        <= 0x8a) || c == 0xa8 || c == 0xa9 || c == 0xaf)) || (a == 0xe2 && b == 0x81 && c == 0x9f)
        || (a == 0xe3 && b == 0x80 && c == 0x80) {
        3
    } else {
        0
    }
}

/// The offset behind the whitespace characters that stand at `from` and
/// end at or before `limit`.
pub fn skip_white_space_within(source: &[u8], from: usize, limit: usize) -> (e: usize)
    requires
        from <= limit <= source@.len(),
    ensures
        e == skip_white_space(source@.subrange(0, limit as int), from as int),
        from <= e <= limit,
{
    let ghost t = source@.subrange(0, limit as int);
    let mut i = from;
    loop
        invariant
            from <= i <= limit <= source@.len(),
            t == source@.subrange(0, limit as int),
            skip_white_space(t, from as int) == skip_white_space(t, i as int),
        ensures
            i == skip_white_space(t, from as int),
        decreases limit - i,
    {
        let n = white_space_len(source, i, limit);
        if n == 0 {
            break ;
        }
        i = i + n;
    }
    i
}

/// The name of a Jinja tag: its first word, behind leading `+` and `-` and
/// then whitespace.
pub fn parse_jinja_tag_name(source: &[u8], tag: &JinjaTag) -> (r: Span)
    requires
        tag.content.within(source@.len()),
    ensures
        r == jinja_tag_name(source@, *tag),
        r.within(source@.len()),
        tag.content.start <= r.start,
        r.end <= tag.content.end,
{
    reveal(jinja_tag_name);
    let end = tag.content.end;
    let a = run_end_within(source, tag.content.start, end, CharClass::Sign);
    let b = skip_white_space_within(source, a, end);
    let c = run_end_within(source, b, end, CharClass::NotWhitespace);
    Span::new(b, c)
}

/// Whether a Jinja tag of this name opens a block.
pub fn opens_jinja_block(name: &[u8]) -> (r: bool)
    ensures
        r == spec_opens_jinja_block(name@),
{
    reveal(spec_opens_jinja_block);
    name_is(name, "for", false) || name_is(name, "if", false) || name_is(name, "macro", false)
        || name_is(name, "call", false) || name_is(name, "filter", false) || name_is(
        name,
        "block",
        false,
    ) || name_is(name, "apply", false) || name_is(name, "autoescape", false) || name_is(
        name,
        "embed",
        false,
    ) || name_is(name, "with", false)
}

/// Whether `t` is `end` followed by `name`.
pub fn closes_jinja_block(t: &[u8], name: &[u8]) -> (r: bool)
    ensures
        r == spec_closes_jinja_block(t@, name@),
{
    reveal(spec_closes_jinja_block);
    let end = "end".as_bytes();
    starts_with(t, end) && bytes_eq(slice_subrange(t, end.len(), t.len()), name, false)
}

/// Whether a tag named `t` continues the block that a tag named `opener`
/// opened.
pub fn is_jinja_branch(opener: &[u8], t: &[u8]) -> (r: bool)
    ensures
        r == spec_is_jinja_branch(opener@, t@),
{
    reveal(spec_is_jinja_branch);
    (name_is(opener, "if", false) || name_is(opener, "for", false)) && (name_is(t, "elif", false)
        || name_is(t, "elseif", false) || name_is(t, "else", false))
}

/// The length in bytes of the whitespace character whose UTF-8 encoding
/// ends at `b` and does not start before `a`, or 0 if there is none.
pub fn white_space_len_before(source: &[u8], a: usize, b: usize) -> (n: usize)
    requires
        a <= b <= source@.len(),
    ensures
        n == spec_white_space_len_before(source@, a as int, b as int),
        a + n <= b,
{
    if b - a >= 1 && white_space_len(source, b - 1, b) == 1 {
        1
    } else if b - a >= 2 && white_space_len(source, b - 2, b) == 2 {
        2
    } else if b - a >= 3 && white_space_len(source, b - 3, b) == 3 {
        3
    } else {
        0
    }
}

/// The text from `a` up to `b` without the whitespace characters at its
/// start and at its end.
pub fn trim(source: &[u8], a: usize, b: usize) -> (r: Span)
    requires
        a <= b <= source@.len(),
    ensures
        r == trimmed(source@, a as int, b as int),
        a <= r.start <= r.end <= b,
{
    let start = skip_white_space_within(source, a, b);
    let mut end = b;
    loop
        invariant
            a <= start <= end <= b <= source@.len(),
            trim_white_space_end(source@, start as int, b as int) == trim_white_space_end(
                source@,
                start as int,
                end as int,
            ),
        ensures
            start <= end <= b,
            end == trim_white_space_end(source@, start as int, b as int),
        decreases end - start,
    {
        let n = white_space_len_before(source, start, end);
        if n == 0 {
            break ;
        }
        end = end - n;
    }
    Span::new(start, end)
}

/// A Vento tag without the whitespace characters around it, split at its
/// first ASCII whitespace into its name and the rest.
pub fn parse_vento_tag(source: &[u8], tag: Span) -> (r: (Span, Span))
    requires
        tag.within(source@.len()),
    ensures
        r == vento_tag_parts(source@, tag),
        r.0.within(source@.len()),
        r.1.within(source@.len()),
{
    reveal(vento_tag_parts);
    let inner = trim(source, tag.start, tag.end);
    let a = inner.start;
    let b = inner.end;
    let e = run_end_within(source, a, b, CharClass::NotWhitespace);
    if e < b {
        (Span::new(a, e), Span::new(e + 1, b))
    } else {
        (Span::new(a, b), Span::new(b, b))
    }
}

/// Whether a Vento tag with this name and rest declares a function.
pub fn is_vento_function(name: &[u8], rest: &[u8]) -> (r: bool)
    ensures
        r == spec_is_vento_function(name@, rest@),
{
    reveal(spec_is_vento_function);
    name_is(name, "function", false) || ((name_is(name, "async", false) || name_is(
        name,
        "export",
        false,
    )) && starts_with(rest, "function".as_bytes()))
}

/// Whether the Vento tag opens a block.
pub fn opens_vento_block(source: &[u8], tag: Span) -> (r: bool)
    requires
        tag.within(source@.len()),
    ensures
        r == spec_opens_vento_block(source@, tag),
{
    reveal(spec_opens_vento_block);
    let (name_span, rest_span) = parse_vento_tag(source, tag);
    let name = name_span.slice(source);
    name_is(name, "for", false) || name_is(name, "if", false) || name_is(name, "layout", false)
        || ((name_is(name, "set", false) || name_is(name, "export", false)) && !contains(
        tag.slice(source),
        '=' as u8,
    )) || is_vento_function(name, rest_span.slice(source))
}

/// Whether the tag `next` closes the Vento block that the tag `opener`
/// opened.
pub fn closes_vento_block(source: &[u8], opener: Span, next: Span) -> (r: bool)
    requires
        opener.within(source@.len()),
        next.within(source@.len()),
    ensures
        r == spec_closes_vento_block(source@, opener, next),
{
    reveal(spec_closes_vento_block);
    let (name_span, rest_span) = parse_vento_tag(source, opener);
    let name = name_span.slice(source);
    let (next_span, _) = parse_vento_tag(source, next);
    let t = trim(source, next_span.start, next_span.end).slice(source);
    if t.len() >= 1 && t[0] == '/' as u8 {
        let tail = slice_subrange(t, 1, t.len());
        bytes_eq(tail, name, false) || (is_vento_function(name, rest_span.slice(source))
            && name_is(tail, "function", false))
    } else {
        false
    }
}

/// Whether the tag `next` is the `else` of the `if` block that the tag
/// `opener` opened.
pub fn is_vento_branch(source: &[u8], opener: Span, next: Span) -> (r: bool)
    requires
        opener.within(source@.len()),
        next.within(source@.len()),
    ensures
        r == spec_is_vento_branch(source@, opener, next),
{
    reveal(spec_is_vento_branch);
    name_is(parse_vento_tag(source, opener).0.slice(source), "if", false) && name_is(
        parse_vento_tag(source, next).0.slice(source),
        "else",
        false,
    )
}

/// Whether a Vento tag with this first word is an interpolation, not a
/// keyword tag.
pub fn is_vento_interpolation(tag_name: &[u8]) -> (r: bool)
    ensures
        r == spec_is_vento_interpolation(tag_name@),
{
    reveal(spec_is_vento_interpolation);
    !(name_is(tag_name, "if", false) || name_is(tag_name, "else", false) || name_is(
        tag_name,
        "for",
        false,
    ) || name_is(tag_name, "set", false) || name_is(tag_name, "include", false) || name_is(
        tag_name,
        "layout",
        false,
    ) || name_is(tag_name, "async", false) || name_is(tag_name, "function", false) || name_is(
        tag_name,
        "import",
        false,
    ) || name_is(tag_name, "export", false))
}

} // verus!

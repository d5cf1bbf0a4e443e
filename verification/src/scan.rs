//! Byte-level vocabulary of the grammar: character classes, literal
//! matching, and the scans that look for the end of a construct.
//!
//! The source is read as bytes. Every delimiter of the grammar is ASCII and
//! every byte of a multi-byte UTF-8 character is at least 128, so a byte at
//! least 128 stands for "part of a non-ASCII character".

use vstd::prelude::*;
use vstd::string::{is_ascii, is_ascii_spec_bytes, StringSliceAdditionalSpecFns};
use crate::span::{Span, span};

verus! {

/// ASCII space, tab, line feed, form feed or carriage return.
pub open spec fn spec_is_ascii_whitespace(c: u8) -> bool {
    c == 32 || c == 9 || c == 10 || c == 12 || c == 13
}

/// An ASCII letter or digit.
pub open spec fn spec_is_ascii_alphanumeric(c: u8) -> bool {
    (48 <= c <= 57) || (65 <= c <= 90) || (97 <= c <= 122)
}

/// A byte of a tag name: an ASCII letter or digit, one of `- _ . : \`, or
/// part of a non-ASCII character.
pub open spec fn spec_is_tag_name_char(c: u8) -> bool {
    spec_is_ascii_alphanumeric(c) || c == '-' as u8 || c == '_' as u8 || c == '.' as u8 || c
        == ':' as u8 || c >= 128 || c == '\\' as u8
}

/// A byte of an attribute name: anything but whitespace and `" ' > / =`.
pub open spec fn spec_is_attr_name_char(c: u8) -> bool {
    !(c == '"' as u8 || c == '\'' as u8 || c == '>' as u8 || c == '/' as u8 || c == '=' as u8)
        && !spec_is_ascii_whitespace(c)
}

/// A byte of an unquoted attribute value: anything but whitespace and
/// `" ' = < >` and the backtick.
pub open spec fn spec_is_unquoted_attr_value_char(c: u8) -> bool {
    !spec_is_ascii_whitespace(c) && !(c == '"' as u8 || c == '\'' as u8 || c == '=' as u8 || c
        == '<' as u8 || c == '>' as u8 || c == '`' as u8)
}

/// A byte of an identifier: an ASCII letter or digit, one of `- _ \`, or part
/// of a non-ASCII character.
pub open spec fn spec_is_identifier_char(c: u8) -> bool {
    spec_is_ascii_alphanumeric(c) || c == '-' as u8 || c == '_' as u8 || c >= 128 || c
        == '\\' as u8
}

/// ASCII space, tab, line feed, form feed or carriage return.
#[verifier::when_used_as_spec(spec_is_ascii_whitespace)]
pub fn is_ascii_whitespace(c: u8) -> (r: bool)
    ensures
        r == spec_is_ascii_whitespace(c),
{
    c == 32 || c == 9 || c == 10 || c == 12 || c == 13
}

/// An ASCII letter or digit.
#[verifier::when_used_as_spec(spec_is_ascii_alphanumeric)]
pub fn is_ascii_alphanumeric(c: u8) -> (r: bool)
    ensures
        r == spec_is_ascii_alphanumeric(c),
{
    (48 <= c && c <= 57) || (65 <= c && c <= 90) || (97 <= c && c <= 122)
}

/// A byte of a tag name: an ASCII letter or digit, one of `- _ . : \`, or
/// part of a non-ASCII character.
#[verifier::when_used_as_spec(spec_is_tag_name_char)]
pub fn is_tag_name_char(c: u8) -> (r: bool)
    ensures
        r == spec_is_tag_name_char(c),
{
    is_ascii_alphanumeric(c) || c == '-' as u8 || c == '_' as u8 || c == '.' as u8 || c
        == ':' as u8 || c >= 128 || c == '\\' as u8
}

/// A byte of an attribute name: anything but whitespace and `" ' > / =`.
#[verifier::when_used_as_spec(spec_is_attr_name_char)]
pub fn is_attr_name_char(c: u8) -> (r: bool)
    ensures
        r == spec_is_attr_name_char(c),
{
    !(c == '"' as u8 || c == '\'' as u8 || c == '>' as u8 || c == '/' as u8 || c == '=' as u8)
        && !is_ascii_whitespace(c)
}

/// A byte of an unquoted attribute value: anything but whitespace and
/// `" ' = < >` and the backtick.
#[verifier::when_used_as_spec(spec_is_unquoted_attr_value_char)]
pub fn is_unquoted_attr_value_char(c: u8) -> (r: bool)
    ensures
        r == spec_is_unquoted_attr_value_char(c),
{
    !is_ascii_whitespace(c) && !(c == '"' as u8 || c == '\'' as u8 || c == '=' as u8 || c
        == '<' as u8 || c == '>' as u8 || c == '`' as u8)
}

/// A byte of an identifier: an ASCII letter or digit, one of `- _ \`, or part
/// of a non-ASCII character.
#[verifier::when_used_as_spec(spec_is_identifier_char)]
pub fn is_identifier_char(c: u8) -> (r: bool)
    ensures
        r == spec_is_identifier_char(c),
{
    is_ascii_alphanumeric(c) || c == '-' as u8 || c == '_' as u8 || c >= 128 || c == '\\' as u8
}

/// The lower-case form of an ASCII capital; any other byte unchanged.
pub open spec fn spec_to_ascii_lowercase(c: u8) -> u8 {
    if 65 <= c <= 90 {
        (c + 32) as u8
    } else {
        c
    }
}

/// The lower-case form of an ASCII capital; any other byte unchanged.
#[verifier::when_used_as_spec(spec_to_ascii_lowercase)]
pub fn to_ascii_lowercase(c: u8) -> (r: u8)
    ensures
        r == spec_to_ascii_lowercase(c),
{
    if 65 <= c && c <= 90 {
        c + 32
    } else {
        c
    }
}

/// Equality of two bytes, exact or up to ASCII case.
pub open spec fn spec_same_byte(a: u8, b: u8, fold: bool) -> bool {
    if fold {
        spec_to_ascii_lowercase(a) == spec_to_ascii_lowercase(b)
    } else {
        a == b
    }
}

/// Compares two bytes, exactly or up to ASCII case.
#[verifier::when_used_as_spec(spec_same_byte)]
pub fn same_byte(a: u8, b: u8, fold: bool) -> (r: bool)
    ensures
        r == spec_same_byte(a, b, fold),
{
    if fold {
        to_ascii_lowercase(a) == to_ascii_lowercase(b)
    } else {
        a == b
    }
}

/// The classes of bytes of which the grammar reads whole runs.
#[derive(Clone, Copy, Debug, PartialEq, Eq)]
pub enum CharClass {
    Whitespace,
    NotWhitespace,
    TagName,
    AttrName,
    AttrValue,
    Identifier,
    /// `+` and `-`, which may lead a Jinja tag.
    Sign,
}

impl CharClass {
    /// Whether `c` belongs to the class.
    pub open spec fn spec_has(self, c: u8) -> bool {
        match self {
            CharClass::Whitespace => spec_is_ascii_whitespace(c),
            CharClass::NotWhitespace => !spec_is_ascii_whitespace(c),
            CharClass::TagName => spec_is_tag_name_char(c),
            CharClass::AttrName => spec_is_attr_name_char(c),
            CharClass::AttrValue => spec_is_unquoted_attr_value_char(c),
            CharClass::Identifier => spec_is_identifier_char(c),
            CharClass::Sign => c == '+' as u8 || c == '-' as u8,
        }
    }

    /// Whether `c` belongs to the class.
    #[verifier::when_used_as_spec(spec_has)]
    pub fn has(self, c: u8) -> (r: bool)
        ensures
            r == self.spec_has(c),
    {
        match self {
            CharClass::Whitespace => is_ascii_whitespace(c),
            CharClass::NotWhitespace => !is_ascii_whitespace(c),
            CharClass::TagName => is_tag_name_char(c),
            CharClass::AttrName => is_attr_name_char(c),
            CharClass::AttrValue => is_unquoted_attr_value_char(c),
            CharClass::Identifier => is_identifier_char(c),
            CharClass::Sign => c == '+' as u8 || c == '-' as u8,
        }
    }
}

/// The byte `c` stands at offset `p`.
pub open spec fn at(s: Seq<u8>, p: int, c: u8) -> bool {
    0 <= p < s.len() && s[p] == c
}

/// A byte of class `cl` stands at offset `p`.
pub open spec fn class_at(s: Seq<u8>, p: int, cl: CharClass) -> bool {
    0 <= p < s.len() && cl.has(s[p])
}

/// The end of the longest run of bytes of class `cl` that starts at `p`.
pub open spec fn run_end(s: Seq<u8>, p: int, cl: CharClass) -> int
    decreases s.len() - p,
{
    if class_at(s, p, cl) {
        run_end(s, p + 1, cl)
    } else {
        p
    }
}

/// The length in bytes of the whitespace character whose UTF-8 encoding
/// starts at `p`, or 0 if none starts there. Whitespace are the characters
/// with the Unicode property White_Space: U+0009 to U+000D, U+0020, U+0085,
/// U+00A0, U+1680, U+2000 to U+200A, U+2028, U+2029, U+202F, U+205F and
/// U+3000.
pub open spec fn spec_white_space_len(s: Seq<u8>, p: int) -> int {
    if !(0 <= p < s.len()) {
        0
    } else if (0x09 <= s[p] <= 0x0d) || s[p] == 0x20 {
        1
    } else if s[p] == 0xc2 && p + 1 < s.len() && (s[p + 1] == 0x85 || s[p + 1] == 0xa0) {
        2
    } else if p + 2 < s.len() && ((s[p] == 0xe1 && s[p + 1] == 0x9a && s[p + 2] == 0x80) || (s[p]
        == 0xe2 && s[p + 1] == 0x80 && ((0x80 <= s[p + 2] <= 0x8a) || s[p + 2] == 0xa8 || s[p + 2]
        == 0xa9 || s[p + 2] == 0xaf)) || (s[p] == 0xe2 && s[p + 1] == 0x81 && s[p + 2] == 0x9f)
        || (s[p] == 0xe3 && s[p + 1] == 0x80 && s[p + 2] == 0x80)) {
        3
    } else {
        0
    }
}

/// The offset behind the whitespace characters, ASCII or not, that stand
/// at `p`.
pub open spec fn skip_white_space(s: Seq<u8>, p: int) -> int
    decreases s.len() - p,
{
    if spec_white_space_len(s, p) > 0 {
        skip_white_space(s, p + spec_white_space_len(s, p))
    } else {
        p
    }
}

/// The length in bytes of the whitespace character whose UTF-8 encoding
/// ends at `b` and does not start before `a`, or 0 if there is none.
pub open spec fn spec_white_space_len_before(s: Seq<u8>, a: int, b: int) -> int {
    if a <= b - 1 && spec_white_space_len(s.subrange(0, b), b - 1) == 1 {
        1
    } else if a <= b - 2 && spec_white_space_len(s.subrange(0, b), b - 2) == 2 {
        2
    } else if a <= b - 3 && spec_white_space_len(s.subrange(0, b), b - 3) == 3 {
        3
    } else {
        0
    }
}

/// The offset before the whitespace characters, ASCII or not, that end at
/// `b` and do not start before `a`.
pub open spec fn trim_white_space_end(s: Seq<u8>, a: int, b: int) -> int
    decreases b - a,
{
    if spec_white_space_len_before(s, a, b) > 0 {
        trim_white_space_end(s, a, b - spec_white_space_len_before(s, a, b))
    } else {
        b
    }
}

/// The text from `a` up to `b` without the whitespace characters at its
/// start and at its end.
pub open spec fn trimmed(s: Seq<u8>, a: int, b: int) -> Span {
    span(
        skip_white_space(s.subrange(0, b), a),
        trim_white_space_end(s, skip_white_space(s.subrange(0, b), a), b),
    )
}

/// The offset of the first byte at or after `p` that is not ASCII
/// whitespace.
pub open spec fn skip_ws(s: Seq<u8>, p: int) -> int {
    run_end(s, p, CharClass::Whitespace)
}

/// How many leading bytes of `pat`, counted from its `i`-th, stand in `s`
/// from `p + i` on; plus `i`.
pub open spec fn prefix_len(s: Seq<u8>, p: int, pat: Seq<u8>, fold: bool, i: int) -> int
    decreases pat.len() - i,
{
    if 0 <= i < pat.len() && 0 <= p + i < s.len() && same_byte(s[p + i], pat[i], fold) {
        prefix_len(s, p, pat, fold, i + 1)
    } else {
        i
    }
}

/// Length of the literal `kw` in bytes.
pub open spec fn klen(kw: &str) -> int {
    kw.spec_bytes().len() as int
}

/// How many leading bytes of the literal `kw` stand at `p`.
pub open spec fn lit_len(s: Seq<u8>, p: int, kw: &str) -> int {
    prefix_len(s, p, kw.spec_bytes(), false, 0)
}

/// The whole literal `kw` stands at `p`.
pub open spec fn has_lit(s: Seq<u8>, p: int, kw: &str) -> bool {
    lit_len(s, p, kw) == klen(kw)
}

/// As [`lit_len`], comparing up to ASCII case.
pub open spec fn lit_len_fold(s: Seq<u8>, p: int, kw: &str) -> int {
    prefix_len(s, p, kw.spec_bytes(), true, 0)
}

/// As [`has_lit`], comparing up to ASCII case.
pub open spec fn has_lit_fold(s: Seq<u8>, p: int, kw: &str) -> bool {
    lit_len_fold(s, p, kw) == klen(kw)
}

/// The first offset at or after `p` at which all of `pat` stands, or the
/// length of `s` if there is none.
pub open spec fn find(s: Seq<u8>, p: int, pat: Seq<u8>) -> int
    decreases s.len() - p,
{
    if p < 0 || p >= s.len() {
        s.len() as int
    } else if prefix_len(s, p, pat, false, 0) == pat.len() {
        p
    } else {
        find(s, p + 1, pat)
    }
}

/// Text that runs from `p` to the first `close` or, without one, to the end
/// of the input: the span of the text, and the offset behind the closing
/// literal.
pub open spec fn until(s: Seq<u8>, p: int, close: &str) -> (Span, int) {
    let e = find(s, p, close.spec_bytes());
    (span(p, e), e + lit_len(s, e, close))
}

/// The offset of the `close` byte that balances an `open` byte just before
/// `p`, where `depth` more `open` bytes are pending; `None` if the input ends
/// first.
pub open spec fn balanced(s: Seq<u8>, p: int, open: u8, close: u8, depth: nat) -> Option<int>
    decreases s.len() - p,
{
    if p < 0 || p >= s.len() {
        None
    } else if s[p] == open {
        balanced(s, p + 1, open, close, depth + 1)
    } else if s[p] == close {
        if depth == 0 {
            Some(p)
        } else {
            balanced(s, p + 1, open, close, (depth - 1) as nat)
        }
    } else {
        balanced(s, p + 1, open, close, depth)
    }
}

/// How often the byte `c` occurs in `s` from offset `a` up to `b`.
pub open spec fn count(s: Seq<u8>, a: int, b: int, c: u8) -> int
    decreases b - a,
{
    if b <= a || b > s.len() || a < 0 {
        0
    } else {
        count(s, a, b - 1, c) + (if s[b - 1] == c { 1int } else { 0int })
    }
}

/// Line feeds in `s` from offset `a` up to `b`.
pub open spec fn line_breaks(s: Seq<u8>, a: int, b: int) -> int {
    count(s, a, b, '\n' as u8)
}

/// An ASCII literal of `n` characters is `n` bytes long.
pub proof fn lemma_klen(kw: &str, n: nat)
    requires
        is_ascii(kw),
        kw@.len() == n,
    ensures
        klen(kw) == n,
{
    is_ascii_spec_bytes(kw);
}

/// A run from `p` ends between `p` and the end of the source, holds only
/// bytes of its class, and no byte of its class follows it.
pub proof fn lemma_run_end_bounds(s: Seq<u8>, p: int, cl: CharClass)
    requires
        0 <= p <= s.len(),
    ensures
        p <= run_end(s, p, cl) <= s.len(),
        !class_at(s, run_end(s, p, cl), cl),
        forall|i: int| p <= i < run_end(s, p, cl) ==> cl.has(#[trigger] s[i]),
    decreases s.len() - p,
{
    if class_at(s, p, cl) {
        lemma_run_end_bounds(s, p + 1, cl);
    }
}

/// A byte occurs in a piece of the source at most as often as the piece is
/// long.
pub proof fn lemma_count_bounds(s: Seq<u8>, a: int, b: int, c: u8)
    ensures
        0 <= count(s, a, b, c),
        a <= b ==> count(s, a, b, c) <= b - a,
    decreases b - a,
{
    if !(b <= a || b > s.len() || a < 0) {
        lemma_count_bounds(s, a, b - 1, c);
    }
}

/// `prefix_len`, counted from `i`, lies between `i` and the length of the
/// pattern, and what it counts lies inside the source.
pub proof fn lemma_prefix_len(s: Seq<u8>, p: int, pat: Seq<u8>, fold: bool, i: int)
    requires
        0 <= p,
        0 <= i <= pat.len(),
        p + i <= s.len(),
    ensures
        i <= prefix_len(s, p, pat, fold, i) <= pat.len(),
        p + prefix_len(s, p, pat, fold, i) <= s.len(),
    decreases pat.len() - i,
{
    if i < pat.len() && p + i < s.len() && spec_same_byte(s[p + i], pat[i], fold) {
        lemma_prefix_len(s, p, pat, fold, i + 1);
    }
}

/// What `find` gives lies between its start and the end of the source, and
/// below the end of the source the pattern stands there.
pub proof fn lemma_find_bounds(s: Seq<u8>, p: int, pat: Seq<u8>)
    requires
        0 <= p <= s.len(),
    ensures
        p <= find(s, p, pat) <= s.len(),
        find(s, p, pat) < s.len() ==> prefix_len(s, find(s, p, pat), pat, false, 0) == pat.len(),
        forall|i: int| p <= i < find(s, p, pat) ==> prefix_len(s, i, pat, false, 0) != pat.len(),
    decreases s.len() - p,
{
    if p < s.len() && prefix_len(s, p, pat, false, 0) != pat.len() {
        lemma_find_bounds(s, p + 1, pat);
    }
}

} // verus!

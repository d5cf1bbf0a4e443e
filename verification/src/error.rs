//! Syntax errors: what was expected, and where.

use vstd::prelude::*;

verus! {

/// What the parser expected at the place where it gave up.
#[derive(Clone, Copy, Debug, PartialEq, Eq)]
pub enum SyntaxErrorKind {
    ExpectElement,
    ExpectTagName,
    ExpectCloseTag,
    ExpectSelfCloseTag,
    ExpectAttrName,
    ExpectAttrValue,
    ExpectChar(char),
    ExpectComment,
    ExpectDoctype,
    ExpectIdentifier,
    ExpectTextNode,
    ExpectMustacheInterpolation,
    ExpectVueDirective,
    ExpectSvelteInterpolation,
    ExpectSvelteAttr,
    ExpectSvelteAtTag,
    ExpectSvelteIfBlock,
    ExpectSvelteElseIfBlock,
    ExpectSvelteBlockEnd,
    ExpectSvelteThenBlock,
    ExpectSvelteCatchBlock,
    ExpectSvelteEachBlock,
    ExpectSvelteKeyBlock,
    UnknownSvelteBlock,
    ExpectAstroAttr,
    ExpectAstroExpr,
    ExpectAstroFrontMatter,
    ExpectJinjaTag,
    ExpectJinjaBlockEnd,
    ExpectVentoBlockEnd,
}

/// A syntax error: its kind and the byte offset at which it was detected.
#[derive(Clone, Copy, Debug, PartialEq, Eq)]
pub struct SyntaxError {
    pub kind: SyntaxErrorKind,
    pub pos: usize,
}

/// The error of kind `kind` at offset `pos`.
pub open spec fn fail(kind: SyntaxErrorKind, pos: int) -> SyntaxError {
    SyntaxError { kind, pos: pos as usize }
}

} // verus!

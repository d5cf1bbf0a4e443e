//! The syntax tree.
//!
//! Every piece of source text in the tree is a [`Span`] of the input.

use vstd::prelude::*;
use crate::span::Span;

verus! {

/// A run of plain text.
#[derive(Clone, Copy, Debug, PartialEq, Eq)]
pub struct TextNode {
    pub raw: Span,
    /// Number of line feeds in `raw`.
    pub line_breaks: u32,
}

/// `<!-- raw -->`
#[derive(Clone, Copy, Debug, PartialEq, Eq)]
pub struct Comment {
    pub raw: Span,
}

/// `name` or `name=value`; the value without its quotes.
#[derive(Clone, Copy, Debug, PartialEq, Eq)]
pub struct NativeAttribute {
    pub name: Span,
    pub value: Option<Span>,
}

/// A Vue directive: `:arg`, `@arg`, `#arg` or `v-name:arg.modifiers`, each
/// with an optional `=value`.
///
/// For the three punctuation forms `name` is the punctuation; for `v-` it
/// runs from the `v` to the end of the identifier behind the hyphen.
#[derive(Clone, Copy, Debug, PartialEq, Eq)]
pub struct VueDirective {
    pub name: Span,
    pub arg_and_modifiers: Option<Span>,
    pub value: Option<Span>,
}

/// `name={expr}`, or the shorthand `{expr}` without a name.
#[derive(Clone, Copy, Debug, PartialEq, Eq)]
pub struct SvelteAttribute {
    pub name: Option<Span>,
    pub expr: Span,
}

/// `name={expr}`, or the shorthand `{expr}` without a name.
#[derive(Clone, Copy, Debug, PartialEq, Eq)]
pub struct AstroAttribute {
    pub name: Option<Span>,
    pub expr: Span,
}

/// An attribute of an element, in any of the forms of the dialects.
#[derive(Clone, Copy, Debug, PartialEq, Eq)]
pub enum Attribute {
    NativeAttribute(NativeAttribute),
    VueDirective(VueDirective),
    SvelteAttribute(SvelteAttribute),
    AstroAttribute(AstroAttribute),
}

/// `{{ expr }}` in Vue.
#[derive(Clone, Copy, Debug, PartialEq, Eq)]
pub struct VueInterpolation {
    pub expr: Span,
}

/// `{expr}` in Svelte.
#[derive(Clone, Copy, Debug, PartialEq, Eq)]
pub struct SvelteInterpolation {
    pub expr: Span,
}

/// `{@name expr}`
#[derive(Clone, Copy, Debug, PartialEq, Eq)]
pub struct SvelteAtTag {
    pub name: Span,
    pub expr: Span,
}

/// The text between the `---` fences at the head of an Astro file.
#[derive(Clone, Copy, Debug, PartialEq, Eq)]
pub struct AstroFrontMatter {
    pub raw: Span,
}

/// `{{ expr }}` in Jinja.
#[derive(Clone, Copy, Debug, PartialEq, Eq)]
pub struct JinjaInterpolation {
    pub expr: Span,
}

/// `{% content %}`
#[derive(Clone, Copy, Debug, PartialEq, Eq)]
pub struct JinjaTag {
    pub content: Span,
}

/// `{# raw #}`
#[derive(Clone, Copy, Debug, PartialEq, Eq)]
pub struct JinjaComment {
    pub raw: Span,
}

/// `{{ expr }}` in Vento, where `expr` does not start with a keyword.
#[derive(Clone, Copy, Debug, PartialEq, Eq)]
pub struct VentoInterpolation {
    pub expr: Span,
}

/// `{{ tag }}` in Vento, where `tag` starts with a keyword.
#[derive(Clone, Copy, Debug, PartialEq, Eq)]
pub struct VentoTag {
    pub tag: Span,
}

/// `{{# raw #}}`
#[derive(Clone, Copy, Debug, PartialEq, Eq)]
pub struct VentoComment {
    pub raw: Span,
}

/// `{{> raw }}`
#[derive(Clone, Copy, Debug, PartialEq, Eq)]
pub struct VentoEval {
    pub raw: Span,
}

/// An element: its open tag and, unless it is void or closes itself, its
/// children up to its end tag.
#[derive(Debug, PartialEq, Eq)]
pub struct Element {
    pub tag_name: Span,
    pub attrs: Vec<Attribute>,
    /// `false` if a line feed stands between the tag name and the first
    /// attribute.
    pub first_attr_same_line: bool,
    pub children: Vec<Node>,
    pub self_closing: bool,
    pub void_element: bool,
}

/// A part of a Jinja block: a tag, or a run of nodes between tags.
#[derive(Debug, PartialEq, Eq)]
pub enum JinjaTagOrChildren {
    Tag(JinjaTag),
    Children(Vec<Node>),
}

/// A Jinja block: its opening tag, runs of children separated by branch
/// tags, and its closing tag.
#[derive(Debug, PartialEq, Eq)]
pub struct JinjaBlock {
    pub body: Vec<JinjaTagOrChildren>,
}

/// A part of a Vento block: a tag, or a run of nodes between tags.
#[derive(Debug, PartialEq, Eq)]
pub enum VentoTagOrChildren {
    Tag(VentoTag),
    Children(Vec<Node>),
}

/// A Vento block: its opening tag, runs of children separated by `else`
/// tags, and its closing tag.
#[derive(Debug, PartialEq, Eq)]
pub struct VentoBlock {
    pub body: Vec<VentoTagOrChildren>,
}

/// `{:else if expr}` and what follows it.
#[derive(Debug, PartialEq, Eq)]
pub struct SvelteElseIfBlock {
    pub expr: Span,
    pub children: Vec<Node>,
}

/// `{#if expr} .. {:else if expr} .. {:else} .. {/if}`
#[derive(Debug, PartialEq, Eq)]
pub struct SvelteIfBlock {
    pub expr: Span,
    pub children: Vec<Node>,
    pub else_if_blocks: Vec<SvelteElseIfBlock>,
    pub else_children: Option<Vec<Node>>,
}

/// `{#each expr as binding, index (key)} .. {:else} .. {/each}`
#[derive(Debug, PartialEq, Eq)]
pub struct SvelteEachBlock {
    pub expr: Span,
    pub binding: Span,
    pub index: Option<Span>,
    pub key: Option<Span>,
    pub children: Vec<Node>,
    pub else_children: Option<Vec<Node>>,
}

/// `{:then binding}` and what follows it.
#[derive(Debug, PartialEq, Eq)]
pub struct SvelteThenBlock {
    pub binding: Span,
    pub children: Vec<Node>,
}

/// `{:catch binding}` and what follows it.
#[derive(Debug, PartialEq, Eq)]
pub struct SvelteCatchBlock {
    pub binding: Option<Span>,
    pub children: Vec<Node>,
}

/// `{#await expr then binding catch binding} .. {:then binding} ..
/// {:catch binding} .. {/await}`
#[derive(Debug, PartialEq, Eq)]
pub struct SvelteAwaitBlock {
    pub expr: Span,
    pub then_binding: Option<Span>,
    pub catch_binding: Option<Span>,
    pub children: Vec<Node>,
    pub then_block: Option<SvelteThenBlock>,
    pub catch_block: Option<SvelteCatchBlock>,
}

/// `{#key expr} .. {/key}`
#[derive(Debug, PartialEq, Eq)]
pub struct SvelteKeyBlock {
    pub expr: Span,
    pub children: Vec<Node>,
}

/// A part of an Astro expression: script text, or a run of nodes.
#[derive(Debug, PartialEq, Eq)]
pub enum AstroExprChild {
    Script(Span),
    Template(Vec<Node>),
}

/// `{ .. }` in Astro: script text in which markup may stand.
#[derive(Debug, PartialEq, Eq)]
pub struct AstroExpr {
    pub children: Vec<AstroExprChild>,
}

/// A node of the syntax tree.
#[derive(Debug, PartialEq, Eq)]
pub enum Node {
    TextNode(TextNode),
    Element(Element),
    Comment(Comment),
    Doctype,
    VueInterpolation(VueInterpolation),
    SvelteInterpolation(SvelteInterpolation),
    SvelteIfBlock(SvelteIfBlock),
    SvelteEachBlock(SvelteEachBlock),
    SvelteAwaitBlock(Box<SvelteAwaitBlock>),
    SvelteKeyBlock(SvelteKeyBlock),
    SvelteAtTag(SvelteAtTag),
    AstroExpr(AstroExpr),
    AstroFrontMatter(AstroFrontMatter),
    JinjaInterpolation(JinjaInterpolation),
    JinjaTag(JinjaTag),
    JinjaBlock(JinjaBlock),
    JinjaComment(JinjaComment),
    VentoInterpolation(VentoInterpolation),
    VentoTag(VentoTag),
    VentoBlock(VentoBlock),
    VentoComment(VentoComment),
    VentoEval(VentoEval),
}

/// A whole document: its nodes in their order.
#[derive(Debug, PartialEq, Eq)]
pub struct Root {
    pub children: Vec<Node>,
}

} // verus!

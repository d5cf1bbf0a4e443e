//! What holds of every syntax tree that the parser builds, stated over the
//! models of [`crate::model`]:
//!
//! - every span lies inside the source, so that its text is the part of the
//!   source at that place;
//! - a text node counts the line feeds of its text;
//! - an element that is void or closes itself has no children, and any
//!   other element is followed by its end tag;
//! - in an Astro expression script parts and templates alternate;
//! - a Jinja or Vento block starts with its opening tag and ends with its
//!   closing tag.

use vstd::prelude::*;
use crate::ast::{
    AstroAttribute, AstroFrontMatter, Attribute, Comment, JinjaComment, JinjaInterpolation,
    JinjaTag, NativeAttribute, SvelteAtTag, SvelteAttribute, SvelteInterpolation, TextNode,
    VentoComment, VentoEval, VentoInterpolation, VentoTag, VueDirective, VueInterpolation,
};
use crate::leaf::{AwaitHeader, close_tag, EachHeader};
use crate::model::{
    AstroPart, AwaitBlockModel, CatchModel, EachBlockModel, ElementModel, ElseIfModel,
    IfBlockModel, JinjaPart, KeyBlockModel, NodeModel, ThenModel, VentoPart,
};
use crate::parser::Language;
use crate::scan::{at, line_breaks};
use crate::span::Span;

verus! {

/// Values made of spans of a source text.
pub trait Sound {
    /// Every span in the value lies inside the source `s`, and what the
    /// value says of its text is true of `s`.
    spec fn sound(&self, s: Seq<u8>) -> bool;
}

impl Sound for () {
    open spec fn sound(&self, s: Seq<u8>) -> bool {
        true
    }
}

impl Sound for Span {
    open spec fn sound(&self, s: Seq<u8>) -> bool {
        self.within(s.len())
    }
}

impl<T: Sound> Sound for Option<T> {
    open spec fn sound(&self, s: Seq<u8>) -> bool {
        match self {
            Some(v) => v.sound(s),
            None => true,
        }
    }
}

impl<A: Sound, B: Sound> Sound for (A, B) {
    open spec fn sound(&self, s: Seq<u8>) -> bool {
        self.0.sound(s) && self.1.sound(s)
    }
}

impl Sound for TextNode {
    open spec fn sound(&self, s: Seq<u8>) -> bool {
        self.raw.within(s.len()) && self.line_breaks == line_breaks(
            s,
            self.raw.start as int,
            self.raw.end as int,
        )
    }
}

impl Sound for Comment {
    open spec fn sound(&self, s: Seq<u8>) -> bool {
        self.raw.within(s.len())
    }
}

impl Sound for NativeAttribute {
    open spec fn sound(&self, s: Seq<u8>) -> bool {
        self.name.within(s.len()) && self.value.sound(s)
    }
}

impl Sound for VueDirective {
    open spec fn sound(&self, s: Seq<u8>) -> bool {
        self.name.within(s.len()) && self.arg_and_modifiers.sound(s) && self.value.sound(s)
    }
}

impl Sound for SvelteAttribute {
    open spec fn sound(&self, s: Seq<u8>) -> bool {
        self.name.sound(s) && self.expr.within(s.len())
    }
}

impl Sound for AstroAttribute {
    open spec fn sound(&self, s: Seq<u8>) -> bool {
        self.name.sound(s) && self.expr.within(s.len())
    }
}

impl Sound for Attribute {
    open spec fn sound(&self, s: Seq<u8>) -> bool {
        match self {
            Attribute::NativeAttribute(a) => a.sound(s),
            Attribute::VueDirective(a) => a.sound(s),
            Attribute::SvelteAttribute(a) => a.sound(s),
            Attribute::AstroAttribute(a) => a.sound(s),
        }
    }
}

impl Sound for VueInterpolation {
    open spec fn sound(&self, s: Seq<u8>) -> bool {
        self.expr.within(s.len())
    }
}

impl Sound for SvelteInterpolation {
    open spec fn sound(&self, s: Seq<u8>) -> bool {
        self.expr.within(s.len())
    }
}

impl Sound for SvelteAtTag {
    open spec fn sound(&self, s: Seq<u8>) -> bool {
        self.name.within(s.len()) && self.expr.within(s.len())
    }
}

impl Sound for AstroFrontMatter {
    open spec fn sound(&self, s: Seq<u8>) -> bool {
        self.raw.within(s.len())
    }
}

impl Sound for JinjaInterpolation {
    open spec fn sound(&self, s: Seq<u8>) -> bool {
        self.expr.within(s.len())
    }
}

impl Sound for JinjaTag {
    open spec fn sound(&self, s: Seq<u8>) -> bool {
        self.content.within(s.len())
    }
}

impl Sound for JinjaComment {
    open spec fn sound(&self, s: Seq<u8>) -> bool {
        self.raw.within(s.len())
    }
}

impl Sound for VentoInterpolation {
    open spec fn sound(&self, s: Seq<u8>) -> bool {
        self.expr.within(s.len())
    }
}

impl Sound for VentoTag {
    open spec fn sound(&self, s: Seq<u8>) -> bool {
        self.tag.within(s.len())
    }
}

impl Sound for VentoComment {
    open spec fn sound(&self, s: Seq<u8>) -> bool {
        self.raw.within(s.len())
    }
}

impl Sound for VentoEval {
    open spec fn sound(&self, s: Seq<u8>) -> bool {
        self.raw.within(s.len())
    }
}

impl Sound for EachHeader {
    open spec fn sound(&self, s: Seq<u8>) -> bool {
        self.expr.within(s.len()) && self.binding.within(s.len()) && self.index.sound(s)
            && self.key.sound(s)
    }
}

impl Sound for AwaitHeader {
    open spec fn sound(&self, s: Seq<u8>) -> bool {
        self.expr.within(s.len()) && self.then_binding.sound(s) && self.catch_binding.sound(s)
    }
}

/// Every attribute of the list is sound.
pub open spec fn attrs_sound(attrs: Seq<Attribute>, s: Seq<u8>) -> bool {
    forall|i: int| 0 <= i < attrs.len() ==> (#[trigger] attrs[i]).sound(s)
}

/// The end tag of the element named by `tag` stands at offset `a`.
pub open spec fn closes_at(s: Seq<u8>, lang: Language, a: int, tag: Span) -> bool {
    tag.end <= a && at(s, a, '<' as u8) && at(s, a + 1, '/' as u8) && close_tag(s, lang, a, tag)
        is Ok
}

/// No two neighbours among the parts are both script or both templates.
pub open spec fn alternates(parts: Seq<AstroPart>) -> bool {
    forall|i: int|
        0 <= i < parts.len() - 1 ==> ((#[trigger] parts[i]) is Script) != (parts[i + 1] is Script)
}

/// Every node of the list is sound.
pub open spec fn nodes_sound(ns: Seq<NodeModel>, s: Seq<u8>, lang: Language) -> bool
    decreases ns, 1int,
{
    forall|i: int| 0 <= i < ns.len() ==> node_sound(#[trigger] ns[i], s, lang)
}

/// Every node of the list, if there is one, is sound.
pub open spec fn opt_nodes_sound(ns: Option<Seq<NodeModel>>, s: Seq<u8>, lang: Language) -> bool
    decreases ns, 2int,
{
    match ns {
        Some(c) => nodes_sound(c, s, lang),
        None => true,
    }
}

/// The element is sound: its spans lie inside the source, its children are
/// sound, and it has no children if it is void or closes itself, and an end
/// tag otherwise.
pub open spec fn element_sound(e: ElementModel, s: Seq<u8>, lang: Language) -> bool
    decreases e, 2int,
{
    &&& e.tag_name.within(s.len())
    &&& attrs_sound(e.attrs, s)
    &&& nodes_sound(e.children, s, lang)
    &&& if e.void_element || e.self_closing {
        e.children.len() == 0
    } else {
        exists|a: int| closes_at(s, lang, a, e.tag_name)
    }
}

/// The part of a Jinja block is sound.
pub open spec fn jinja_part_sound(p: JinjaPart, s: Seq<u8>, lang: Language) -> bool
    decreases p, 2int,
{
    match p {
        JinjaPart::Tag(t) => t.sound(s),
        JinjaPart::Children(c) => nodes_sound(c, s, lang),
    }
}

/// Every part of the Jinja block is sound.
pub open spec fn jinja_body_sound(b: Seq<JinjaPart>, s: Seq<u8>, lang: Language) -> bool
    decreases b, 3int,
{
    forall|i: int| 0 <= i < b.len() ==> jinja_part_sound(#[trigger] b[i], s, lang)
}

/// The part of a Vento block is sound.
pub open spec fn vento_part_sound(p: VentoPart, s: Seq<u8>, lang: Language) -> bool
    decreases p, 2int,
{
    match p {
        VentoPart::Tag(t) => t.sound(s),
        VentoPart::Children(c) => nodes_sound(c, s, lang),
    }
}

/// Every part of the Vento block is sound.
pub open spec fn vento_body_sound(b: Seq<VentoPart>, s: Seq<u8>, lang: Language) -> bool
    decreases b, 3int,
{
    forall|i: int| 0 <= i < b.len() ==> vento_part_sound(#[trigger] b[i], s, lang)
}

/// The `{:else if}` branch is sound.
pub open spec fn else_if_sound(b: ElseIfModel, s: Seq<u8>, lang: Language) -> bool
    decreases b, 2int,
{
    b.expr.within(s.len()) && nodes_sound(b.children, s, lang)
}

/// Every `{:else if}` branch of the list is sound.
pub open spec fn else_ifs_sound(b: Seq<ElseIfModel>, s: Seq<u8>, lang: Language) -> bool
    decreases b, 3int,
{
    forall|i: int| 0 <= i < b.len() ==> else_if_sound(#[trigger] b[i], s, lang)
}

/// The `{#if}` block is sound.
pub open spec fn if_block_sound(b: IfBlockModel, s: Seq<u8>, lang: Language) -> bool
    decreases b, 4int,
{
    &&& b.expr.within(s.len())
    &&& nodes_sound(b.children, s, lang)
    &&& else_ifs_sound(b.else_if_blocks, s, lang)
    &&& opt_nodes_sound(b.else_children, s, lang)
}

/// The `{#each}` block is sound.
pub open spec fn each_block_sound(b: EachBlockModel, s: Seq<u8>, lang: Language) -> bool
    decreases b, 4int,
{
    &&& b.expr.within(s.len())
    &&& b.binding.within(s.len())
    &&& b.index.sound(s)
    &&& b.key.sound(s)
    &&& nodes_sound(b.children, s, lang)
    &&& opt_nodes_sound(b.else_children, s, lang)
}

/// The `{:then}` section, if there is one, is sound.
pub open spec fn then_sound(b: Option<ThenModel>, s: Seq<u8>, lang: Language) -> bool
    decreases b, 2int,
{
    match b {
        Some(t) => t.binding.within(s.len()) && nodes_sound(t.children, s, lang),
        None => true,
    }
}

/// The `{:catch}` section, if there is one, is sound.
pub open spec fn catch_sound(b: Option<CatchModel>, s: Seq<u8>, lang: Language) -> bool
    decreases b, 2int,
{
    match b {
        Some(t) => t.binding.sound(s) && nodes_sound(t.children, s, lang),
        None => true,
    }
}

/// The `{#await}` block is sound.
pub open spec fn await_block_sound(b: AwaitBlockModel, s: Seq<u8>, lang: Language) -> bool
    decreases b, 4int,
{
    &&& b.expr.within(s.len())
    &&& b.then_binding.sound(s)
    &&& b.catch_binding.sound(s)
    &&& nodes_sound(b.children, s, lang)
    &&& then_sound(b.then_block, s, lang)
    &&& catch_sound(b.catch_block, s, lang)
}

/// The `{#key}` block is sound.
pub open spec fn key_block_sound(b: KeyBlockModel, s: Seq<u8>, lang: Language) -> bool
    decreases b, 2int,
{
    b.expr.within(s.len()) && nodes_sound(b.children, s, lang)
}

/// The part of an Astro expression is sound.
pub open spec fn astro_part_sound(p: AstroPart, s: Seq<u8>, lang: Language) -> bool
    decreases p, 2int,
{
    match p {
        AstroPart::Script(t) => t.within(s.len()),
        AstroPart::Template(c) => nodes_sound(c, s, lang),
    }
}

/// Every part of the Astro expression is sound.
pub open spec fn astro_parts_sound(b: Seq<AstroPart>, s: Seq<u8>, lang: Language) -> bool
    decreases b, 3int,
{
    forall|i: int| 0 <= i < b.len() ==> astro_part_sound(#[trigger] b[i], s, lang)
}

/// The node is sound, and so is every node inside it.
pub open spec fn node_sound(n: NodeModel, s: Seq<u8>, lang: Language) -> bool
    decreases n, 0int,
{
    match n {
        NodeModel::TextNode(t) => t.sound(s),
        NodeModel::Element(e) => element_sound(e, s, lang),
        NodeModel::Comment(c) => c.sound(s),
        NodeModel::Doctype => true,
        NodeModel::VueInterpolation(i) => i.sound(s),
        NodeModel::SvelteInterpolation(i) => i.sound(s),
        NodeModel::SvelteIfBlock(b) => if_block_sound(b, s, lang),
        NodeModel::SvelteEachBlock(b) => each_block_sound(b, s, lang),
        NodeModel::SvelteAwaitBlock(b) => await_block_sound(b, s, lang),
        NodeModel::SvelteKeyBlock(b) => key_block_sound(b, s, lang),
        NodeModel::SvelteAtTag(t) => t.sound(s),
        NodeModel::AstroExpr(parts) => astro_parts_sound(parts, s, lang) && alternates(parts),
        NodeModel::AstroFrontMatter(f) => f.sound(s),
        NodeModel::JinjaInterpolation(i) => i.sound(s),
        NodeModel::JinjaTag(t) => t.sound(s),
        NodeModel::JinjaBlock(b) => jinja_body_sound(b, s, lang) && b.len() >= 2 && b[0] is Tag
            && b.last() is Tag,
        NodeModel::JinjaComment(c) => c.sound(s),
        NodeModel::VentoInterpolation(i) => i.sound(s),
        NodeModel::VentoTag(t) => t.sound(s),
        NodeModel::VentoBlock(b) => vento_body_sound(b, s, lang) && b.len() >= 2 && b[0] is Tag
            && b.last() is Tag,
        NodeModel::VentoComment(c) => c.sound(s),
        NodeModel::VentoEval(e) => e.sound(s),
    }
}

pub(crate) proof fn lemma_nodes_sound_push(ns: Seq<NodeModel>, n: NodeModel, s: Seq<u8>, lang: Language)
    requires
        nodes_sound(ns, s, lang),
        node_sound(n, s, lang),
    ensures
        nodes_sound(ns.push(n), s, lang),
        nodes_sound(seq![n], s, lang),
        nodes_sound(Seq::empty(), s, lang),
{
    assert forall|i: int| 0 <= i < ns.push(n).len() implies node_sound(
        #[trigger] ns.push(n)[i],
        s,
        lang,
    ) by {
        if i < ns.len() {
            assert(ns.push(n)[i] == ns[i]);
        }
    }
}

/// Adding a node to sound parts that alternate leaves them so.
pub(crate) proof fn lemma_astro_append(parts: Seq<AstroPart>, n: NodeModel, s: Seq<u8>, lang: Language)
    requires
        astro_parts_sound(parts, s, lang),
        alternates(parts),
        node_sound(n, s, lang),
    ensures
        astro_parts_sound(crate::tree::astro_append(parts, n), s, lang),
        alternates(crate::tree::astro_append(parts, n)),
        crate::tree::astro_append(parts, n).len() > 0,
        crate::tree::astro_append(parts, n).last() is Template,
{
    let out = crate::tree::astro_append(parts, n);
    if parts.len() > 0 && parts.last() is Template {
        let nodes = parts.last()->Template_0;
        assert(astro_part_sound(parts[parts.len() - 1], s, lang));
        lemma_nodes_sound_push(nodes, n, s, lang);
        assert(out.len() == parts.len());
        assert forall|i: int| 0 <= i < out.len() implies astro_part_sound(
            #[trigger] out[i],
            s,
            lang,
        ) by {
            if i < parts.len() - 1 {
                assert(out[i] == parts[i]);
            }
        }
        assert forall|i: int| 0 <= i < out.len() - 1 implies ((#[trigger] out[i]) is Script) != (
        out[i + 1] is Script) by {
            assert(out[i] == parts[i]);
            assert((out[i + 1] is Script) == (parts[i + 1] is Script));
        }
    } else {
        lemma_nodes_sound_push(Seq::empty(), n, s, lang);
        assert forall|i: int| 0 <= i < out.len() implies astro_part_sound(
            #[trigger] out[i],
            s,
            lang,
        ) by {
            if i < parts.len() {
                assert(out[i] == parts[i]);
            }
        }
        assert forall|i: int| 0 <= i < out.len() - 1 implies ((#[trigger] out[i]) is Script) != (
        out[i + 1] is Script) by {
            assert(out[i] == parts[i]);
            if i + 1 < parts.len() {
                assert(out[i + 1] == parts[i + 1]);
            }
        }
    }
}

/// Adding script text to sound parts that alternate and do not end in
/// script leaves them sound and alternating.
pub(crate) proof fn lemma_astro_flush(parts: Seq<AstroPart>, a: int, b: int, s: Seq<u8>, lang: Language)
    requires
        astro_parts_sound(parts, s, lang),
        alternates(parts),
        parts.len() > 0 ==> parts.last() is Template,
        0 <= a <= b <= s.len() <= u32::MAX,
    ensures
        astro_parts_sound(crate::tree::astro_flush(s, parts, a, b), s, lang),
        alternates(crate::tree::astro_flush(s, parts, a, b)),
{
    let out = crate::tree::astro_flush(s, parts, a, b);
    let text = crate::leaf::text_of(s, a, b);
    crate::scan::lemma_count_bounds(s, a, b, '\n' as u8);
    assert(text.sound(s));
    if a >= b {
    } else if crate::leaf::all_ws(s, a, b) {
        if parts.len() > 0 && parts.last() is Template {
            let nodes = parts.last()->Template_0;
            assert(astro_part_sound(parts[parts.len() - 1], s, lang));
            lemma_nodes_sound_push(nodes, NodeModel::TextNode(text), s, lang);
            assert forall|i: int| 0 <= i < out.len() implies astro_part_sound(
                #[trigger] out[i],
                s,
                lang,
            ) by {
                if i < parts.len() - 1 {
                    assert(out[i] == parts[i]);
                }
            }
            assert forall|i: int| 0 <= i < out.len() - 1 implies ((#[trigger] out[i]) is Script)
                != (out[i + 1] is Script) by {
                assert(out[i] == parts[i]);
                assert((out[i + 1] is Script) == (parts[i + 1] is Script));
            }
        }
    } else {
        assert forall|i: int| 0 <= i < out.len() implies astro_part_sound(
            #[trigger] out[i],
            s,
            lang,
        ) by {
            if i < parts.len() {
                assert(out[i] == parts[i]);
            }
        }
        assert forall|i: int| 0 <= i < out.len() - 1 implies ((#[trigger] out[i]) is Script) != (
        out[i + 1] is Script) by {
            assert(out[i] == parts[i]);
            if i + 1 < parts.len() {
                assert(out[i + 1] == parts[i + 1]);
            }
        }
    }
}

/// Adding a script part to sound parts that alternate and do not end in
/// script leaves them sound and alternating.
pub(crate) proof fn lemma_astro_script(parts: Seq<AstroPart>, t: Span, s: Seq<u8>, lang: Language)
    requires
        astro_parts_sound(parts, s, lang),
        alternates(parts),
        parts.len() > 0 ==> parts.last() is Template,
        t.within(s.len()),
    ensures
        astro_parts_sound(parts.push(AstroPart::Script(t)), s, lang),
        alternates(parts.push(AstroPart::Script(t))),
{
    let out = parts.push(AstroPart::Script(t));
    assert forall|i: int| 0 <= i < out.len() implies astro_part_sound(#[trigger] out[i], s, lang) by {
        if i < parts.len() {
            assert(out[i] == parts[i]);
        }
    }
    assert forall|i: int| 0 <= i < out.len() - 1 implies ((#[trigger] out[i]) is Script) != (out[i
        + 1] is Script) by {
        assert(out[i] == parts[i]);
        if i + 1 < parts.len() {
            assert(out[i + 1] == parts[i + 1]);
        }
    }
}

} // verus!

//! The mathematical model of the syntax tree: the same shapes as in
//! [`crate::ast`], with sequences in place of vectors.
//!
//! The grammar is stated over these models, and [`Model::model`] maps each
//! tree that the parser builds to the model it stands for.

use vstd::prelude::*;
use crate::ast::{
    AstroExpr, AstroExprChild, AstroFrontMatter, Attribute, Comment, Element, JinjaComment,
    JinjaInterpolation, JinjaTag, JinjaTagOrChildren, Node, Root, SvelteAtTag, SvelteAwaitBlock,
    SvelteCatchBlock, SvelteEachBlock, SvelteElseIfBlock, SvelteIfBlock, SvelteInterpolation,
    SvelteKeyBlock, SvelteThenBlock, TextNode, VentoComment, VentoEval, VentoInterpolation,
    VentoTag, VentoTagOrChildren, VueInterpolation,
};
use crate::span::Span;

verus! {

pub ghost struct ElementModel {
    pub tag_name: Span,
    pub attrs: Seq<Attribute>,
    pub first_attr_same_line: bool,
    pub children: Seq<NodeModel>,
    pub self_closing: bool,
    pub void_element: bool,
}

pub ghost enum JinjaPart {
    Tag(JinjaTag),
    Children(Seq<NodeModel>),
}

pub ghost enum VentoPart {
    Tag(VentoTag),
    Children(Seq<NodeModel>),
}

pub ghost struct ElseIfModel {
    pub expr: Span,
    pub children: Seq<NodeModel>,
}

pub ghost struct IfBlockModel {
    pub expr: Span,
    pub children: Seq<NodeModel>,
    pub else_if_blocks: Seq<ElseIfModel>,
    pub else_children: Option<Seq<NodeModel>>,
}

pub ghost struct EachBlockModel {
    pub expr: Span,
    pub binding: Span,
    pub index: Option<Span>,
    pub key: Option<Span>,
    pub children: Seq<NodeModel>,
    pub else_children: Option<Seq<NodeModel>>,
}

pub ghost struct ThenModel {
    pub binding: Span,
    pub children: Seq<NodeModel>,
}

pub ghost struct CatchModel {
    pub binding: Option<Span>,
    pub children: Seq<NodeModel>,
}

pub ghost struct AwaitBlockModel {
    pub expr: Span,
    pub then_binding: Option<Span>,
    pub catch_binding: Option<Span>,
    pub children: Seq<NodeModel>,
    pub then_block: Option<ThenModel>,
    pub catch_block: Option<CatchModel>,
}

pub ghost struct KeyBlockModel {
    pub expr: Span,
    pub children: Seq<NodeModel>,
}

pub ghost enum AstroPart {
    Script(Span),
    Template(Seq<NodeModel>),
}

pub ghost enum NodeModel {
    TextNode(TextNode),
    Element(ElementModel),
    Comment(Comment),
    Doctype,
    VueInterpolation(VueInterpolation),
    SvelteInterpolation(SvelteInterpolation),
    SvelteIfBlock(IfBlockModel),
    SvelteEachBlock(EachBlockModel),
    SvelteAwaitBlock(AwaitBlockModel),
    SvelteKeyBlock(KeyBlockModel),
    SvelteAtTag(SvelteAtTag),
    AstroExpr(Seq<AstroPart>),
    AstroFrontMatter(AstroFrontMatter),
    JinjaInterpolation(JinjaInterpolation),
    JinjaTag(JinjaTag),
    JinjaBlock(Seq<JinjaPart>),
    JinjaComment(JinjaComment),
    VentoInterpolation(VentoInterpolation),
    VentoTag(VentoTag),
    VentoBlock(Seq<VentoPart>),
    VentoComment(VentoComment),
    VentoEval(VentoEval),
}

/// The models of the nodes of a list.
pub open spec fn nodes_model(v: Seq<Node>) -> Seq<NodeModel>
    decreases v, 1int,
{
    Seq::new(
        v.len(),
        |i: int|
            if 0 <= i < v.len() {
                node_model(v[i])
            } else {
                NodeModel::Doctype
            },
    )
}

/// The models of the nodes of a list that may be absent.
pub open spec fn opt_nodes_model(v: Option<Vec<Node>>) -> Option<Seq<NodeModel>>
    decreases v, 3int,
{
    match v {
        Some(c) => Some(nodes_model(c@)),
        None => None,
    }
}

/// The model of an element.
pub open spec fn element_model(e: Element) -> ElementModel
    decreases e, 2int,
{
    ElementModel {
        tag_name: e.tag_name,
        attrs: e.attrs@,
        first_attr_same_line: e.first_attr_same_line,
        children: nodes_model(e.children@),
        self_closing: e.self_closing,
        void_element: e.void_element,
    }
}

/// The model of a part of a Jinja block.
pub open spec fn jinja_part_model(p: JinjaTagOrChildren) -> JinjaPart
    decreases p, 2int,
{
    match p {
        JinjaTagOrChildren::Tag(t) => JinjaPart::Tag(t),
        JinjaTagOrChildren::Children(c) => JinjaPart::Children(nodes_model(c@)),
    }
}

/// The models of the parts of a Jinja block.
pub open spec fn jinja_body_model(v: Seq<JinjaTagOrChildren>) -> Seq<JinjaPart>
    decreases v, 3int,
{
    Seq::new(
        v.len(),
        |i: int|
            if 0 <= i < v.len() {
                jinja_part_model(v[i])
            } else {
                JinjaPart::Children(Seq::empty())
            },
    )
}

/// The model of a part of a Vento block.
pub open spec fn vento_part_model(p: VentoTagOrChildren) -> VentoPart
    decreases p, 2int,
{
    match p {
        VentoTagOrChildren::Tag(t) => VentoPart::Tag(t),
        VentoTagOrChildren::Children(c) => VentoPart::Children(nodes_model(c@)),
    }
}

/// The models of the parts of a Vento block.
pub open spec fn vento_body_model(v: Seq<VentoTagOrChildren>) -> Seq<VentoPart>
    decreases v, 3int,
{
    Seq::new(
        v.len(),
        |i: int|
            if 0 <= i < v.len() {
                vento_part_model(v[i])
            } else {
                VentoPart::Children(Seq::empty())
            },
    )
}

/// The model of an `{:else if}` branch.
pub open spec fn else_if_model(b: SvelteElseIfBlock) -> ElseIfModel
    decreases b, 2int,
{
    ElseIfModel { expr: b.expr, children: nodes_model(b.children@) }
}

/// The models of the `{:else if}` branches of a block.
pub open spec fn else_ifs_model(v: Seq<SvelteElseIfBlock>) -> Seq<ElseIfModel>
    decreases v, 3int,
{
    Seq::new(
        v.len(),
        |i: int|
            if 0 <= i < v.len() {
                else_if_model(v[i])
            } else {
                ElseIfModel { expr: Span { start: 0, end: 0 }, children: Seq::empty() }
            },
    )
}

/// The model of an `{#if}` block.
pub open spec fn if_block_model(b: SvelteIfBlock) -> IfBlockModel
    decreases b, 4int,
{
    IfBlockModel {
        expr: b.expr,
        children: nodes_model(b.children@),
        else_if_blocks: else_ifs_model(b.else_if_blocks@),
        else_children: opt_nodes_model(b.else_children),
    }
}

/// The model of an `{#each}` block.
pub open spec fn each_block_model(b: SvelteEachBlock) -> EachBlockModel
    decreases b, 4int,
{
    EachBlockModel {
        expr: b.expr,
        binding: b.binding,
        index: b.index,
        key: b.key,
        children: nodes_model(b.children@),
        else_children: opt_nodes_model(b.else_children),
    }
}

/// The model of a `{:then}` section.
pub open spec fn then_model(b: Option<SvelteThenBlock>) -> Option<ThenModel>
    decreases b, 2int,
{
    match b {
        Some(t) => Some(ThenModel { binding: t.binding, children: nodes_model(t.children@) }),
        None => None,
    }
}

/// The model of a `{:catch}` section.
pub open spec fn catch_model(b: Option<SvelteCatchBlock>) -> Option<CatchModel>
    decreases b, 2int,
{
    match b {
        Some(t) => Some(CatchModel { binding: t.binding, children: nodes_model(t.children@) }),
        None => None,
    }
}

/// The model of an `{#await}` block.
pub open spec fn await_block_model(b: SvelteAwaitBlock) -> AwaitBlockModel
    decreases b, 4int,
{
    AwaitBlockModel {
        expr: b.expr,
        then_binding: b.then_binding,
        catch_binding: b.catch_binding,
        children: nodes_model(b.children@),
        then_block: then_model(b.then_block),
        catch_block: catch_model(b.catch_block),
    }
}

/// The model of a `{#key}` block.
pub open spec fn key_block_model(b: SvelteKeyBlock) -> KeyBlockModel
    decreases b, 2int,
{
    KeyBlockModel { expr: b.expr, children: nodes_model(b.children@) }
}

/// The model of a part of an Astro expression.
pub open spec fn astro_part_model(p: AstroExprChild) -> AstroPart
    decreases p, 2int,
{
    match p {
        AstroExprChild::Script(t) => AstroPart::Script(t),
        AstroExprChild::Template(c) => AstroPart::Template(nodes_model(c@)),
    }
}

/// The models of the parts of an Astro expression.
pub open spec fn astro_parts_model(v: Seq<AstroExprChild>) -> Seq<AstroPart>
    decreases v, 3int,
{
    Seq::new(
        v.len(),
        |i: int|
            if 0 <= i < v.len() {
                astro_part_model(v[i])
            } else {
                AstroPart::Template(Seq::empty())
            },
    )
}

/// The model of a node: the node with a sequence wherever it holds a vector.
pub open spec fn node_model(n: Node) -> NodeModel
    decreases n, 0int,
{
    match n {
        Node::TextNode(t) => NodeModel::TextNode(t),
        Node::Element(e) => NodeModel::Element(element_model(e)),
        Node::Comment(c) => NodeModel::Comment(c),
        Node::Doctype => NodeModel::Doctype,
        Node::VueInterpolation(i) => NodeModel::VueInterpolation(i),
        Node::SvelteInterpolation(i) => NodeModel::SvelteInterpolation(i),
        Node::SvelteIfBlock(b) => NodeModel::SvelteIfBlock(if_block_model(b)),
        Node::SvelteEachBlock(b) => NodeModel::SvelteEachBlock(each_block_model(b)),
        Node::SvelteAwaitBlock(b) => NodeModel::SvelteAwaitBlock(await_block_model(*b)),
        Node::SvelteKeyBlock(b) => NodeModel::SvelteKeyBlock(key_block_model(b)),
        Node::SvelteAtTag(t) => NodeModel::SvelteAtTag(t),
        Node::AstroExpr(e) => NodeModel::AstroExpr(astro_parts_model(e.children@)),
        Node::AstroFrontMatter(f) => NodeModel::AstroFrontMatter(f),
        Node::JinjaInterpolation(i) => NodeModel::JinjaInterpolation(i),
        Node::JinjaTag(t) => NodeModel::JinjaTag(t),
        Node::JinjaBlock(b) => NodeModel::JinjaBlock(jinja_body_model(b.body@)),
        Node::JinjaComment(c) => NodeModel::JinjaComment(c),
        Node::VentoInterpolation(i) => NodeModel::VentoInterpolation(i),
        Node::VentoTag(t) => NodeModel::VentoTag(t),
        Node::VentoBlock(b) => NodeModel::VentoBlock(vento_body_model(b.body@)),
        Node::VentoComment(c) => NodeModel::VentoComment(c),
        Node::VentoEval(e) => NodeModel::VentoEval(e),
    }
}

/// Syntax trees, each with the model it stands for.
pub trait Model {
    type M;

    spec fn model(&self) -> Self::M;
}

impl Model for Node {
    type M = NodeModel;

    open spec fn model(&self) -> NodeModel {
        node_model(*self)
    }
}

impl Model for Vec<Node> {
    type M = Seq<NodeModel>;

    open spec fn model(&self) -> Seq<NodeModel> {
        nodes_model(self@)
    }
}

impl Model for Root {
    type M = Seq<NodeModel>;

    open spec fn model(&self) -> Seq<NodeModel> {
        nodes_model(self.children@)
    }
}

impl Model for Element {
    type M = ElementModel;

    open spec fn model(&self) -> ElementModel {
        element_model(*self)
    }
}

impl Model for SvelteIfBlock {
    type M = IfBlockModel;

    open spec fn model(&self) -> IfBlockModel {
        if_block_model(*self)
    }
}

impl Model for SvelteEachBlock {
    type M = EachBlockModel;

    open spec fn model(&self) -> EachBlockModel {
        each_block_model(*self)
    }
}

impl Model for Box<SvelteAwaitBlock> {
    type M = AwaitBlockModel;

    open spec fn model(&self) -> AwaitBlockModel {
        await_block_model(**self)
    }
}

impl Model for SvelteKeyBlock {
    type M = KeyBlockModel;

    open spec fn model(&self) -> KeyBlockModel {
        key_block_model(*self)
    }
}

impl Model for AstroExpr {
    type M = Seq<AstroPart>;

    open spec fn model(&self) -> Seq<AstroPart> {
        astro_parts_model(self.children@)
    }
}

pub(crate) proof fn lemma_nodes_empty()
    ensures
        nodes_model(Seq::<Node>::empty()) == Seq::<NodeModel>::empty(),
{
    assert(nodes_model(Seq::<Node>::empty()) =~= Seq::<NodeModel>::empty());
}

pub(crate) proof fn lemma_nodes_push(v: Seq<Node>, n: Node)
    ensures
        nodes_model(v.push(n)) == nodes_model(v).push(node_model(n)),
{
    assert(nodes_model(v.push(n)) =~= nodes_model(v).push(node_model(n)));
}

pub(crate) proof fn lemma_nodes_one(n: Node)
    ensures
        nodes_model(seq![n]) == seq![node_model(n)],
{
    assert(nodes_model(seq![n]) =~= seq![node_model(n)]);
}

pub(crate) proof fn lemma_nodes_add(a: Seq<Node>, b: Seq<Node>)
    ensures
        nodes_model(a + b) == nodes_model(a) + nodes_model(b),
{
    assert(nodes_model(a + b) =~= nodes_model(a) + nodes_model(b));
}

pub(crate) proof fn lemma_else_ifs_empty()
    ensures
        else_ifs_model(Seq::<SvelteElseIfBlock>::empty()) == Seq::<ElseIfModel>::empty(),
{
    assert(else_ifs_model(Seq::<SvelteElseIfBlock>::empty()) =~= Seq::<ElseIfModel>::empty());
}

pub(crate) proof fn lemma_else_ifs_push(v: Seq<SvelteElseIfBlock>, b: SvelteElseIfBlock)
    ensures
        else_ifs_model(v.push(b)) == else_ifs_model(v).push(else_if_model(b)),
{
    assert(else_ifs_model(v.push(b)) =~= else_ifs_model(v).push(else_if_model(b)));
}

pub(crate) proof fn lemma_jinja_body_push(v: Seq<JinjaTagOrChildren>, b: JinjaTagOrChildren)
    ensures
        jinja_body_model(v.push(b)) == jinja_body_model(v).push(jinja_part_model(b)),
        jinja_body_model(seq![b]) == seq![jinja_part_model(b)],
{
    assert(jinja_body_model(v.push(b)) =~= jinja_body_model(v).push(jinja_part_model(b)));
    assert(jinja_body_model(seq![b]) =~= seq![jinja_part_model(b)]);
}

pub(crate) proof fn lemma_vento_body_push(v: Seq<VentoTagOrChildren>, b: VentoTagOrChildren)
    ensures
        vento_body_model(v.push(b)) == vento_body_model(v).push(vento_part_model(b)),
        vento_body_model(seq![b]) == seq![vento_part_model(b)],
{
    assert(vento_body_model(v.push(b)) =~= vento_body_model(v).push(vento_part_model(b)));
    assert(vento_body_model(seq![b]) =~= seq![vento_part_model(b)]);
}

pub(crate) proof fn lemma_vento_body_last(v: Seq<VentoTagOrChildren>)
    requires
        v.len() > 0,
    ensures
        vento_body_model(v).last() == vento_part_model(v.last()),
        vento_body_model(v.drop_last()) == vento_body_model(v).drop_last(),
{
    assert(vento_body_model(v.drop_last()) =~= vento_body_model(v).drop_last());
}

pub(crate) proof fn lemma_astro_parts_push(v: Seq<AstroExprChild>, b: AstroExprChild)
    ensures
        astro_parts_model(v.push(b)) == astro_parts_model(v).push(astro_part_model(b)),
        astro_parts_model(Seq::<AstroExprChild>::empty()) == Seq::<AstroPart>::empty(),
{
    assert(astro_parts_model(v.push(b)) =~= astro_parts_model(v).push(astro_part_model(b)));
    assert(astro_parts_model(Seq::<AstroExprChild>::empty()) =~= Seq::<AstroPart>::empty());
}

pub(crate) proof fn lemma_astro_parts_last(v: Seq<AstroExprChild>)
    requires
        v.len() > 0,
    ensures
        astro_parts_model(v).last() == astro_part_model(v.last()),
        astro_parts_model(v.drop_last()) == astro_parts_model(v).drop_last(),
{
    assert(astro_parts_model(v.drop_last()) =~= astro_parts_model(v).drop_last());
}

} // verus!

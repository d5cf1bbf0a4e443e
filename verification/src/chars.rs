//! Character boundaries: the source is the UTF-8 encoding of a text, and
//! the spans of a syntax tree cut it between characters, never inside one.
//!
//! A byte offset is a character boundary if it is the end of the source or
//! if the byte there does not continue a character. In UTF-8 no byte that
//! continues a character follows an ASCII byte; a source of which that
//! holds is called tidy here.

use vstd::prelude::*;
use vstd::string::{is_ascii, is_ascii_spec_bytes, StringSliceAdditionalSpecFns};
use vstd::utf8::{
    is_char_boundary, is_char_boundary_iff_not_is_continuation_byte,
    is_char_boundary_start_end_of_seq, is_continuation_byte, length_of_first_scalar,
    pop_first_scalar, valid_utf8,
};
use crate::ast::{
    AstroAttribute, Attribute, Comment, NativeAttribute, SvelteAtTag, SvelteAttribute, TextNode,
    VueDirective,
};
use crate::leaf::{AwaitHeader, EachHeader};
use crate::model::{
    AstroPart, AwaitBlockModel, CatchModel, EachBlockModel, ElementModel, ElseIfModel,
    IfBlockModel, JinjaPart, KeyBlockModel, NodeModel, ThenModel, VentoPart,
};
use crate::scan::spec_white_space_len;
use crate::span::Span;

verus! {

/// The offset `i` is the end of the source, or a byte stands there that
/// does not continue a character.
pub open spec fn starts_char(s: Seq<u8>, i: int) -> bool {
    i == s.len() || (0 <= i < s.len() && !is_continuation_byte(s[i]))
}

/// No byte that continues a character follows an ASCII byte.
pub open spec fn tidy(s: Seq<u8>) -> bool {
    forall|i: int| 0 <= i < s.len() && #[trigger] s[i] < 0x80 ==> starts_char(s, i + 1)
}

/// Behind a character boundary inside valid UTF-8 the next boundary comes
/// after as many bytes as the character there is long.
pub proof fn lemma_next_boundary(s: Seq<u8>, i: int)
    requires
        valid_utf8(s),
        0 <= i < s.len(),
        is_char_boundary(s, i),
    ensures
        s[i] < 0x80 ==> is_char_boundary(s, i + 1),
    decreases s.len(),
{
    let n = length_of_first_scalar(s);
    let rest = pop_first_scalar(s);
    if i == 0 {
        if s[0] < 0x80 {
            assert(n == 1);
            assert(is_char_boundary(rest, 0));
            assert(is_char_boundary(s, 1));
        }
    } else {
        assert(is_char_boundary(rest, i - n));
        if i - n == rest.len() {
            assert(false);
        }
        if i - n < 0 {
            assert(false);
        }
        lemma_next_boundary(rest, i - n);
        assert(rest[i - n] == s[i]);
        if s[i] < 0x80 {
            assert(is_char_boundary(rest, i - n + 1));
            assert(is_char_boundary(s, i + 1));
        }
    }
}

/// Valid UTF-8 is tidy, and its character boundaries are the offsets that
/// start a character.
pub proof fn lemma_utf8_is_tidy(s: Seq<u8>)
    requires
        valid_utf8(s),
    ensures
        tidy(s),
        forall|i: int| 0 <= i <= s.len() ==> (starts_char(s, i) <==> #[trigger] is_char_boundary(s, i)),
{
    is_char_boundary_start_end_of_seq(s);
    assert forall|i: int| 0 <= i <= s.len() implies (starts_char(s, i) <==> #[trigger] is_char_boundary(
        s,
        i,
    )) by {
        if i < s.len() {
            is_char_boundary_iff_not_is_continuation_byte(s, i);
        }
    }
    assert forall|i: int| 0 <= i < s.len() && #[trigger] s[i] < 0x80 implies starts_char(
        s,
        i + 1,
    ) by {
        is_char_boundary_iff_not_is_continuation_byte(s, i);
        lemma_next_boundary(s, i);
        assert(is_char_boundary(s, i + 1));
    }
}

/// The bytes of a text are tidy.
pub proof fn lemma_text_is_tidy(text: &str)
    ensures
        tidy(text.spec_bytes()),
        valid_utf8(text.spec_bytes()),
{
    vstd::utf8::encode_utf8_valid_utf8(text@);
    lemma_utf8_is_tidy(text.spec_bytes());
}

/// The code point is that of a whitespace character: it has the Unicode
/// property White_Space.
pub open spec fn is_white_space(c: u32) -> bool {
    (0x09 <= c <= 0x0d) || c == 0x20 || c == 0x85 || c == 0xa0 || c == 0x1680 || (0x2000 <= c
        <= 0x200a) || c == 0x2028 || c == 0x2029 || c == 0x202f || c == 0x205f || c == 0x3000
}

/// Where a character of valid UTF-8 starts at `p`, the length that
/// [`spec_white_space_len`] gives there is the length of that character if
/// it is whitespace, and 0 if it is not.
pub proof fn lemma_white_space_is_character(s: Seq<u8>, p: int)
    requires
        0 <= p < s.len(),
        vstd::utf8::valid_first_scalar(s.subrange(p, s.len() as int)),
    ensures
        spec_white_space_len(s, p) == (if is_white_space(
            vstd::utf8::decode_first_scalar(s.subrange(p, s.len() as int)),
        ) {
            length_of_first_scalar(s.subrange(p, s.len() as int))
        } else {
            0
        }),
{
    let rest = s.subrange(p, s.len() as int);
    let a = rest[0];
    assert(a == s[p]);
    if a <= 0x7f {
        assert((a & 0x7f) as u32 == a as u32) by (bit_vector)
            requires
                a <= 0x7f,
        ;
    } else if 0xc0 <= a <= 0xdf {
        let b = rest[1];
        assert(b == s[p + 1]);
        let c = (((a & 0x1f) as u32) << 6) | ((b & 0x3f) as u32);
        assert(c < 0x800 && (c == 0x85 <==> a == 0xc2 && b == 0x85) && (c == 0xa0 <==> a == 0xc2
            && b == 0xa0)) by (bit_vector)
            requires
                0xc0 <= a <= 0xdf,
                0x80 <= b <= 0xbf,
                c == (((a & 0x1f) as u32) << 6) | ((b & 0x3f) as u32),
        ;
    } else if 0xe0 <= a <= 0xef {
        let b = rest[1];
        let d = rest[2];
        assert(b == s[p + 1] && d == s[p + 2]);
        let c = (((a & 0x0f) as u32) << 12) | (((b & 0x3f) as u32) << 6) | ((d & 0x3f) as u32);
        assert(c < 0x10000 && (c == 0x1680 <==> a == 0xe1 && b == 0x9a && d == 0x80) && (0x2000
            <= c <= 0x200a <==> a == 0xe2 && b == 0x80 && 0x80 <= d <= 0x8a) && (c == 0x2028 <==> a
            == 0xe2 && b == 0x80 && d == 0xa8) && (c == 0x2029 <==> a == 0xe2 && b == 0x80 && d
            == 0xa9) && (c == 0x202f <==> a == 0xe2 && b == 0x80 && d == 0xaf) && (c == 0x205f <==> a
            == 0xe2 && b == 0x81 && d == 0x9f) && (c == 0x3000 <==> a == 0xe3 && b == 0x80 && d
            == 0x80)) by (bit_vector)
            requires
                0xe0 <= a <= 0xef,
                0x80 <= b <= 0xbf,
                0x80 <= d <= 0xbf,
                c == (((a & 0x0f) as u32) << 12) | (((b & 0x3f) as u32) << 6) | ((d & 0x3f) as u32),
        ;
    } else {
    }
}

/// Every byte of the pattern is ASCII.
pub open spec fn ascii(pat: Seq<u8>) -> bool {
    forall|i: int| 0 <= i < pat.len() ==> #[trigger] pat[i] < 0x80
}

/// The bytes of an ASCII literal are ASCII.
pub proof fn lemma_ascii_kw(kw: &str)
    requires
        is_ascii(kw),
    ensures
        ascii(kw.spec_bytes()),
        kw.spec_bytes().len() == kw@.len(),
{
    is_ascii_spec_bytes(kw);
}

/// Reading may start at `p`: the source is tidy and short enough for
/// offsets to be held in a `usize`, and `p` is a character boundary of it.
pub open spec fn ready(s: Seq<u8>, p: int) -> bool {
    0 <= p <= s.len() <= usize::MAX && tidy(s) && starts_char(s, p)
}

impl Span {
    /// The span lies inside `s`, and both its ends are character
    /// boundaries.
    pub open spec fn on_chars(self, s: Seq<u8>) -> bool {
        self.within(s.len()) && starts_char(s, self.start as int) && starts_char(
            s,
            self.end as int,
        )
    }

    /// The text of `source` that the span covers, borrowed from it.
    pub fn resolve<'a>(&self, source: &'a str) -> (r: &'a str)
        requires
            self.on_chars(source.spec_bytes()),
        ensures
            r.spec_bytes() == self.text(source.spec_bytes()),
    {
        let ghost s = source.spec_bytes();
        proof {
            lemma_text_is_tidy(source);
            lemma_utf8_is_tidy(s);
            assert(is_char_boundary(s, self.end as int));
            vstd::utf8::valid_utf8_split(s, self.end as int);
        }
        let (head, _) = source.split_at(self.end);
        proof {
            let h = head.spec_bytes();
            assert(h =~= s.subrange(0, self.end as int));
            lemma_utf8_is_tidy(h);
            if self.start < self.end {
                assert(h[self.start as int] == s[self.start as int]);
            }
            assert(starts_char(h, self.start as int));
            assert(is_char_boundary(h, self.start as int));
        }
        let (_, body) = head.split_at(self.start);
        proof {
            assert(body.spec_bytes() =~= self.text(s));
        }
        body
    }
}

/// Values made of spans of a source text.
pub trait OnChars {
    /// Every span in the value lies inside `s` and between characters.
    spec fn on_chars(&self, s: Seq<u8>) -> bool;
}

/// The span, if there is one, lies between characters.
pub open spec fn opt_on_chars(x: Option<Span>, s: Seq<u8>) -> bool {
    match x {
        Some(v) => v.on_chars(s),
        None => true,
    }
}

impl OnChars for TextNode {
    open spec fn on_chars(&self, s: Seq<u8>) -> bool {
        self.raw.on_chars(s)
    }
}

impl OnChars for Comment {
    open spec fn on_chars(&self, s: Seq<u8>) -> bool {
        self.raw.on_chars(s)
    }
}

impl OnChars for NativeAttribute {
    open spec fn on_chars(&self, s: Seq<u8>) -> bool {
        self.name.on_chars(s) && opt_on_chars(self.value, s)
    }
}

impl OnChars for VueDirective {
    open spec fn on_chars(&self, s: Seq<u8>) -> bool {
        self.name.on_chars(s) && opt_on_chars(self.arg_and_modifiers, s) && opt_on_chars(
            self.value,
            s,
        )
    }
}

impl OnChars for SvelteAttribute {
    open spec fn on_chars(&self, s: Seq<u8>) -> bool {
        opt_on_chars(self.name, s) && self.expr.on_chars(s)
    }
}

impl OnChars for AstroAttribute {
    open spec fn on_chars(&self, s: Seq<u8>) -> bool {
        opt_on_chars(self.name, s) && self.expr.on_chars(s)
    }
}

impl OnChars for Attribute {
    open spec fn on_chars(&self, s: Seq<u8>) -> bool {
        match self {
            Attribute::NativeAttribute(a) => a.on_chars(s),
            Attribute::VueDirective(a) => a.on_chars(s),
            Attribute::SvelteAttribute(a) => a.on_chars(s),
            Attribute::AstroAttribute(a) => a.on_chars(s),
        }
    }
}

impl OnChars for SvelteAtTag {
    open spec fn on_chars(&self, s: Seq<u8>) -> bool {
        self.name.on_chars(s) && self.expr.on_chars(s)
    }
}

impl OnChars for EachHeader {
    open spec fn on_chars(&self, s: Seq<u8>) -> bool {
        self.expr.on_chars(s) && self.binding.on_chars(s) && opt_on_chars(self.index, s)
            && opt_on_chars(self.key, s)
    }
}

impl OnChars for AwaitHeader {
    open spec fn on_chars(&self, s: Seq<u8>) -> bool {
        self.expr.on_chars(s) && opt_on_chars(self.then_binding, s) && opt_on_chars(
            self.catch_binding,
            s,
        )
    }
}

/// Every attribute of the list lies between characters.
pub open spec fn attrs_on_chars(attrs: Seq<Attribute>, s: Seq<u8>) -> bool {
    forall|i: int| 0 <= i < attrs.len() ==> (#[trigger] attrs[i]).on_chars(s)
}

/// Every span in every node of the list lies between characters.
pub open spec fn nodes_on_chars(ns: Seq<NodeModel>, s: Seq<u8>) -> bool
    decreases ns, 1int,
{
    forall|i: int| 0 <= i < ns.len() ==> node_on_chars(#[trigger] ns[i], s)
}

/// Every span in the nodes of the list, if there is one, lies between
/// characters.
pub open spec fn opt_nodes_on_chars(ns: Option<Seq<NodeModel>>, s: Seq<u8>) -> bool
    decreases ns, 2int,
{
    match ns {
        Some(c) => nodes_on_chars(c, s),
        None => true,
    }
}

/// Every span in the element lies between characters.
pub open spec fn element_on_chars(e: ElementModel, s: Seq<u8>) -> bool
    decreases e, 2int,
{
    e.tag_name.on_chars(s) && attrs_on_chars(e.attrs, s) && nodes_on_chars(e.children, s)
}

/// Every span in the part of a Jinja block lies between characters.
pub open spec fn jinja_part_on_chars(p: JinjaPart, s: Seq<u8>) -> bool
    decreases p, 2int,
{
    match p {
        JinjaPart::Tag(t) => t.content.on_chars(s),
        JinjaPart::Children(c) => nodes_on_chars(c, s),
    }
}

/// Every span in the Jinja block lies between characters.
pub open spec fn jinja_body_on_chars(b: Seq<JinjaPart>, s: Seq<u8>) -> bool
    decreases b, 3int,
{
    forall|i: int| 0 <= i < b.len() ==> jinja_part_on_chars(#[trigger] b[i], s)
}

/// Every span in the part of a Vento block lies between characters.
pub open spec fn vento_part_on_chars(p: VentoPart, s: Seq<u8>) -> bool
    decreases p, 2int,
{
    match p {
        VentoPart::Tag(t) => t.tag.on_chars(s),
        VentoPart::Children(c) => nodes_on_chars(c, s),
    }
}

/// Every span in the Vento block lies between characters.
pub open spec fn vento_body_on_chars(b: Seq<VentoPart>, s: Seq<u8>) -> bool
    decreases b, 3int,
{
    forall|i: int| 0 <= i < b.len() ==> vento_part_on_chars(#[trigger] b[i], s)
}

/// Every span in the `{:else if}` branch lies between characters.
pub open spec fn else_if_on_chars(b: ElseIfModel, s: Seq<u8>) -> bool
    decreases b, 2int,
{
    b.expr.on_chars(s) && nodes_on_chars(b.children, s)
}

/// Every span in the `{:else if}` branches lies between characters.
pub open spec fn else_ifs_on_chars(b: Seq<ElseIfModel>, s: Seq<u8>) -> bool
    decreases b, 3int,
{
    forall|i: int| 0 <= i < b.len() ==> else_if_on_chars(#[trigger] b[i], s)
}

/// Every span in the `{#if}` block lies between characters.
pub open spec fn if_block_on_chars(b: IfBlockModel, s: Seq<u8>) -> bool
    decreases b, 4int,
{
    b.expr.on_chars(s) && nodes_on_chars(b.children, s) && else_ifs_on_chars(b.else_if_blocks, s)
        && opt_nodes_on_chars(b.else_children, s)
}

/// Every span in the `{#each}` block lies between characters.
pub open spec fn each_block_on_chars(b: EachBlockModel, s: Seq<u8>) -> bool
    decreases b, 4int,
{
    b.expr.on_chars(s) && b.binding.on_chars(s) && opt_on_chars(b.index, s) && opt_on_chars(
        b.key,
        s,
    ) && nodes_on_chars(b.children, s) && opt_nodes_on_chars(b.else_children, s)
}

/// Every span in the `{:then}` section lies between characters.
pub open spec fn then_on_chars(b: Option<ThenModel>, s: Seq<u8>) -> bool
    decreases b, 2int,
{
    match b {
        Some(t) => t.binding.on_chars(s) && nodes_on_chars(t.children, s),
        None => true,
    }
}

/// Every span in the `{:catch}` section lies between characters.
pub open spec fn catch_on_chars(b: Option<CatchModel>, s: Seq<u8>) -> bool
    decreases b, 2int,
{
    match b {
        Some(t) => opt_on_chars(t.binding, s) && nodes_on_chars(t.children, s),
        None => true,
    }
}

/// Every span in the `{#await}` block lies between characters.
pub open spec fn await_block_on_chars(b: AwaitBlockModel, s: Seq<u8>) -> bool
    decreases b, 4int,
{
    b.expr.on_chars(s) && opt_on_chars(b.then_binding, s) && opt_on_chars(b.catch_binding, s)
        && nodes_on_chars(b.children, s) && then_on_chars(b.then_block, s) && catch_on_chars(
        b.catch_block,
        s,
    )
}

/// Every span in the `{#key}` block lies between characters.
pub open spec fn key_block_on_chars(b: KeyBlockModel, s: Seq<u8>) -> bool
    decreases b, 2int,
{
    b.expr.on_chars(s) && nodes_on_chars(b.children, s)
}

/// Every span in the part of an Astro expression lies between characters.
pub open spec fn astro_part_on_chars(p: AstroPart, s: Seq<u8>) -> bool
    decreases p, 2int,
{
    match p {
        AstroPart::Script(t) => t.on_chars(s),
        AstroPart::Template(c) => nodes_on_chars(c, s),
    }
}

/// Every span in the Astro expression lies between characters.
pub open spec fn astro_parts_on_chars(b: Seq<AstroPart>, s: Seq<u8>) -> bool
    decreases b, 3int,
{
    forall|i: int| 0 <= i < b.len() ==> astro_part_on_chars(#[trigger] b[i], s)
}

/// Every span in the node, and in every node inside it, lies inside `s`
/// and between characters.
pub open spec fn node_on_chars(n: NodeModel, s: Seq<u8>) -> bool
    decreases n, 0int,
{
    match n {
        NodeModel::TextNode(t) => t.on_chars(s),
        NodeModel::Element(e) => element_on_chars(e, s),
        NodeModel::Comment(c) => c.on_chars(s),
        NodeModel::Doctype => true,
        NodeModel::VueInterpolation(i) => i.expr.on_chars(s),
        NodeModel::SvelteInterpolation(i) => i.expr.on_chars(s),
        NodeModel::SvelteIfBlock(b) => if_block_on_chars(b, s),
        NodeModel::SvelteEachBlock(b) => each_block_on_chars(b, s),
        NodeModel::SvelteAwaitBlock(b) => await_block_on_chars(b, s),
        NodeModel::SvelteKeyBlock(b) => key_block_on_chars(b, s),
        NodeModel::SvelteAtTag(t) => t.on_chars(s),
        NodeModel::AstroExpr(parts) => astro_parts_on_chars(parts, s),
        NodeModel::AstroFrontMatter(f) => f.raw.on_chars(s),
        NodeModel::JinjaInterpolation(i) => i.expr.on_chars(s),
        NodeModel::JinjaTag(t) => t.content.on_chars(s),
        NodeModel::JinjaBlock(b) => jinja_body_on_chars(b, s),
        NodeModel::JinjaComment(c) => c.raw.on_chars(s),
        NodeModel::VentoInterpolation(i) => i.expr.on_chars(s),
        NodeModel::VentoTag(t) => t.tag.on_chars(s),
        NodeModel::VentoBlock(b) => vento_body_on_chars(b, s),
        NodeModel::VentoComment(c) => c.raw.on_chars(s),
        NodeModel::VentoEval(e) => e.raw.on_chars(s),
    }
}

} // verus!

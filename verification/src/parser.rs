//! The parser: a cursor over the source bytes and one routine for each
//! construct of the grammar.

use vstd::prelude::*;
use vstd::string::StringSliceAdditionalSpecFns;
use crate::{leaf, tree};
use crate::ast::{
    AstroAttribute, AstroExpr, AstroExprChild, AstroFrontMatter, Attribute, Comment, Element,
    JinjaBlock, JinjaComment, JinjaInterpolation, JinjaTag, JinjaTagOrChildren, NativeAttribute,
    Node, Root, SvelteAtTag, SvelteAttribute, SvelteAwaitBlock, SvelteCatchBlock, SvelteEachBlock,
    SvelteElseIfBlock, SvelteIfBlock, SvelteInterpolation, SvelteKeyBlock, SvelteThenBlock,
    TextNode, VentoBlock, VentoComment, VentoEval, VentoInterpolation, VentoTag,
    VentoTagOrChildren, VueDirective, VueInterpolation,
};
use crate::boundaries::lemma_root_on_chars;
use crate::chars::{lemma_text_is_tidy, lemma_utf8_is_tidy, nodes_on_chars, ready};
use crate::error::{fail, SyntaxError, SyntaxErrorKind};
use crate::laws::{balanced_element, delimited_by, lemma_raw_text_end_bounds, well_parted};
use crate::leaf::{AwaitHeader, EachHeader, Scan};
use crate::model::{
    astro_parts_model, else_ifs_model, jinja_body_model, lemma_astro_parts_last,
    lemma_astro_parts_push, lemma_else_ifs_empty, lemma_else_ifs_push, lemma_jinja_body_push,
    lemma_nodes_add, lemma_nodes_empty, lemma_nodes_one, lemma_nodes_push, lemma_vento_body_last,
    lemma_vento_body_push, Model, nodes_model, opt_nodes_model, vento_body_model,
};
use crate::names::{
    bytes_eq, closes_jinja_block, closes_vento_block, is_jinja_branch, is_raw_text_tag,
    is_vento_branch, is_vento_interpolation, is_void_element, opens_jinja_block,
    opens_vento_block, parse_jinja_tag_name, parse_vento_tag, run_end_within,
};
use crate::scan::{
    at, CharClass, class_at, find, has_lit, is_ascii_whitespace, klen, lemma_klen, line_breaks,
    prefix_len, run_end, same_byte,
};
use crate::sound::{
    alternates, astro_parts_sound, attrs_sound, await_block_sound, closes_at, each_block_sound,
    element_sound, else_ifs_sound, if_block_sound, jinja_body_sound, key_block_sound,
    lemma_astro_append, lemma_astro_flush, lemma_astro_script, lemma_nodes_sound_push, node_sound,
    nodes_sound, opt_nodes_sound, Sound, vento_body_sound,
};
use crate::span::{Span, span};
use crate::tree::{BlockKind, Branch, Parse};

verus! {

/// Supported languages.
#[derive(Clone, Copy, Debug, PartialEq, Eq, Structural)]
pub enum Language {
    Html,
    Vue,
    Svelte,
    Astro,
    Jinja,
    Vento,
}

#[derive(Clone, Copy, Debug, PartialEq, Eq, Structural)]
struct ParserState {
    has_astro_front_matter: bool,
}

/// A position of the parser that it can go back to.
#[derive(Clone, Copy, Debug)]
struct Snapshot {
    pos: usize,
    state: ParserState,
}

/// What a parsing routine returns.
pub type PResult<T> = Result<T, SyntaxError>;

/// A parser over one source text: the text, the dialect in which it is
/// read, and a cursor into it.
pub struct Parser<'s> {
    source: &'s [u8],
    language: Language,
    pos: usize,
    state: ParserState,
}

impl<'s> Parser<'s> {
    /// The bytes of the source text.
    pub closed spec fn src(&self) -> Seq<u8> {
        self.source@
    }

    /// The dialect in which the source is read.
    pub closed spec fn dialect(&self) -> Language {
        self.language
    }

    /// The offset of the next byte to read.
    pub closed spec fn offset(&self) -> int {
        self.pos as int
    }

    /// Whether an Astro front matter has been read.
    pub closed spec fn front_matter_seen(&self) -> bool {
        self.state.has_astro_front_matter
    }

    /// The cursor stands inside the source, and the source is short enough
    /// for its line feeds to be counted in a `u32`.
    pub closed spec fn wf(&self) -> bool {
        self.pos <= self.source@.len() <= u32::MAX
    }

    /// The source is the UTF-8 encoding of a text, and the cursor stands
    /// at a character boundary.
    pub closed spec fn between_chars(&self) -> bool {
        ready(self.source@, self.pos as int)
    }

    /// A parser at the start of `source`.
    pub fn new(source: &'s str, language: Language) -> (r: Self)
        requires
            source.spec_bytes().len() <= u32::MAX,
        ensures
            r.wf(),
            r.between_chars(),
            r.src() == source.spec_bytes(),
            r.dialect() == language,
            r.offset() == 0,
            !r.front_matter_seen(),
    {
        proof {
            lemma_text_is_tidy(source);
            lemma_utf8_is_tidy(source.spec_bytes());
            vstd::utf8::is_char_boundary_start_end_of_seq(source.spec_bytes());
        }
        Parser {
            source: source.as_bytes(),
            language,
            pos: 0,
            state: ParserState { has_astro_front_matter: false },
        }
    }

    /// A parser at the start of `source`, if `source` is not longer than
    /// `u32::MAX` bytes, the most that [`Parser::new`] takes.
    pub fn try_new(source: &'s str, language: Language) -> (r: Option<Self>)
        ensures
            r is Some <==> source.spec_bytes().len() <= u32::MAX,
            r matches Some(p) ==> p.wf() && p.between_chars() && p.src() == source.spec_bytes()
                && p.dialect() == language && p.offset() == 0 && !p.front_matter_seen(),
    {
        if source.as_bytes().len() <= u32::MAX as usize {
            Some(Parser::new(source, language))
        } else {
            None
        }
    }

    /// `post` reads the same source in the same dialect as `pre`, and its
    /// cursor is valid and not before that of `pre`.
    spec fn follows(pre: Self, post: Self) -> bool {
        &&& post.wf()
        &&& post.source == pre.source
        &&& post.language == pre.language
        &&& pre.pos <= post.pos
    }

    /// `post` is `pre` with the cursor moved forward to `q`.
    spec fn moved(pre: Self, post: Self, q: int) -> bool {
        &&& Self::follows(pre, post)
        &&& post.state == pre.state
        &&& post.pos == q
    }

    /// A routine that took the parser from `pre` to `post` and returned `r`
    /// has read what the grammar rule `want` says: on success the value and
    /// the cursor are those of the rule, on failure the error is.
    spec fn scans<T: Sound>(pre: Self, post: Self, r: Result<T, SyntaxError>, want: Scan<T>) -> bool {
        &&& Self::follows(pre, post)
        &&& post.state == pre.state
        &&& match want {
            Ok((v, q)) => r == Ok::<T, SyntaxError>(v) && post.pos == q && v.sound(pre.source@),
            Err(e) => r == Err::<T, SyntaxError>(e),
        }
    }

    /// As [`Parser::scans`], for a routine that reads at least one byte
    /// where it succeeds.
    spec fn reads<T: Sound>(pre: Self, post: Self, r: Result<T, SyntaxError>, want: Scan<T>) -> bool {
        &&& Self::scans(pre, post, r, want)
        &&& r is Ok ==> pre.pos < post.pos
    }

    fn peek(&self) -> (r: Option<u8>)
        requires
            self.wf(),
        ensures
            r == (if self.pos < self.source@.len() {
                Some(self.source@[self.pos as int])
            } else {
                None
            }),
    {
        if self.pos < self.source.len() {
            Some(self.source[self.pos])
        } else {
            None
        }
    }

    /// Whether the byte `c` stands `k` bytes behind the cursor.
    fn is_at(&self, k: usize, c: u8) -> (r: bool)
        requires
            self.wf(),
        ensures
            r == at(self.source@, self.pos + k, c),
    {
        k < self.source.len() - self.pos && self.source[self.pos + k] == c
    }

    /// Whether a byte of class `cl` stands `k` bytes behind the cursor.
    fn class_is_at(&self, k: usize, cl: CharClass) -> (r: bool)
        requires
            self.wf(),
        ensures
            r == class_at(self.source@, self.pos + k, cl),
    {
        k < self.source.len() - self.pos && cl.has(self.source[self.pos + k])
    }

    /// Reads one byte, if there is one.
    fn advance(&mut self) -> (r: Option<u8>)
        requires
            old(self).wf(),
        ensures
            r == (if old(self).pos < old(self).source@.len() {
                Some(old(self).source@[old(self).pos as int])
            } else {
                None
            }),
            Self::moved(
                *old(self),
                *final(self),
                if r is Some {
                    old(self).pos + 1
                } else {
                    old(self).pos as int
                },
            ),
    {
        if self.pos < self.source.len() {
            let c = self.source[self.pos];
            self.pos = self.pos + 1;
            Some(c)
        } else {
            None
        }
    }

    /// Reads the byte `c` if it is next.
    fn eat(&mut self, c: u8) -> (r: bool)
        requires
            old(self).wf(),
        ensures
            r == at(old(self).source@, old(self).pos as int, c),
            Self::moved(
                *old(self),
                *final(self),
                if r {
                    old(self).pos + 1
                } else {
                    old(self).pos as int
                },
            ),
    {
        if self.pos < self.source.len() && self.source[self.pos] == c {
            self.pos = self.pos + 1;
            true
        } else {
            false
        }
    }

    /// Reads one byte of class `cl` if one is next.
    fn eat_class(&mut self, cl: CharClass) -> (r: bool)
        requires
            old(self).wf(),
        ensures
            r == class_at(old(self).source@, old(self).pos as int, cl),
            Self::moved(
                *old(self),
                *final(self),
                if r {
                    old(self).pos + 1
                } else {
                    old(self).pos as int
                },
            ),
    {
        if self.pos < self.source.len() && cl.has(self.source[self.pos]) {
            self.pos = self.pos + 1;
            true
        } else {
            false
        }
    }

    /// Reads the longest run of bytes of class `cl`.
    fn skip_run(&mut self, cl: CharClass)
        requires
            old(self).wf(),
        ensures
            Self::moved(*old(self), *final(self), run_end(old(self).source@, old(self).pos as int, cl)),
    {
        while self.pos < self.source.len() && cl.has(self.source[self.pos])
            invariant
                Self::follows(*old(self), *self),
                self.state == old(self).state,
                run_end(old(self).source@, old(self).pos as int, cl) == run_end(
                    self.source@,
                    self.pos as int,
                    cl,
                ),
            decreases self.source@.len() - self.pos,
        {
            self.pos = self.pos + 1;
        }
    }

    fn skip_ws(&mut self)
        requires
            old(self).wf(),
        ensures
            Self::moved(*old(self), *final(self), crate::scan::skip_ws(old(self).source@, old(self).pos as int)),
    {
        self.skip_run(CharClass::Whitespace)
    }

    /// How many leading bytes of `pat` stand in the source from `from` on.
    fn match_len(&self, from: usize, pat: &[u8], fold: bool) -> (n: usize)
        requires
            self.wf(),
            from <= self.source@.len(),
        ensures
            n == prefix_len(self.source@, from as int, pat@, fold, 0),
            n <= pat@.len(),
            from + n <= self.source@.len(),
    {
        let mut i: usize = 0;
        while i < pat.len() && i < self.source.len() - from && same_byte(
            self.source[from + i],
            pat[i],
            fold,
        )
            invariant
                self.wf(),
                from <= self.source@.len(),
                i <= pat@.len(),
                from + i <= self.source@.len(),
                prefix_len(self.source@, from as int, pat@, fold, 0) == prefix_len(
                    self.source@,
                    from as int,
                    pat@,
                    fold,
                    i as int,
                ),
            decreases pat@.len() - i,
        {
            i = i + 1;
        }
        i
    }

    /// Reads as many leading bytes of the literal `kw` as stand at the
    /// cursor, and says whether that was all of it.
    fn eat_kw(&mut self, kw: &str, fold: bool) -> (r: bool)
        requires
            old(self).wf(),
        ensures
            r == (prefix_len(old(self).source@, old(self).pos as int, kw.spec_bytes(), fold, 0)
                == klen(kw)),
            Self::moved(
                *old(self),
                *final(self),
                old(self).pos + prefix_len(
                    old(self).source@,
                    old(self).pos as int,
                    kw.spec_bytes(),
                    fold,
                    0,
                ),
            ),
    {
        let pat = kw.as_bytes();
        let n = self.match_len(self.pos, pat, fold);
        self.pos = self.pos + n;
        n == pat.len()
    }

    /// Whether the literal `kw` stands at the cursor.
    fn at_kw(&self, kw: &str) -> (r: bool)
        requires
            self.wf(),
        ensures
            r == has_lit(self.source@, self.pos as int, kw),
    {
        let pat = kw.as_bytes();
        self.match_len(self.pos, pat, false) == pat.len()
    }

    /// Moves the cursor to the next place at which the literal `kw` stands,
    /// or to the end of the input.
    fn seek(&mut self, kw: &str)
        requires
            old(self).wf(),
        ensures
            Self::moved(
                *old(self),
                *final(self),
                find(old(self).source@, old(self).pos as int, kw.spec_bytes()),
            ),
    {
        let pat = kw.as_bytes();
        loop
            invariant
                Self::follows(*old(self), *self),
                self.state == old(self).state,
                pat@ == kw.spec_bytes(),
                find(old(self).source@, old(self).pos as int, pat@) == find(
                    self.source@,
                    self.pos as int,
                    pat@,
                ),
            ensures
                self.pos == find(old(self).source@, old(self).pos as int, pat@),
            decreases self.source@.len() - self.pos,
        {
            if self.pos >= self.source.len() {
                break ;
            }
            if self.match_len(self.pos, pat, false) == pat.len() {
                break ;
            }
            self.pos = self.pos + 1;
        }
    }

    /// The error of kind `kind` at the cursor.
    fn emit_error(&self, kind: SyntaxErrorKind) -> (r: SyntaxError)
        requires
            self.wf(),
        ensures
            r == fail(kind, self.pos as int),
    {
        SyntaxError { kind, pos: self.pos }
    }

    /// The current position, to go back to with [`Parser::restore`].
    fn snapshot(&self) -> (r: Snapshot)
        ensures
            r.pos == self.pos,
            r.state == self.state,
    {
        Snapshot { pos: self.pos, state: self.state }
    }

    /// Goes back to a position that [`Parser::snapshot`] gave for this
    /// parser.
    fn restore(&mut self, snap: Snapshot)
        requires
            snap.pos <= old(self).source@.len() <= u32::MAX,
        ensures
            final(self).wf(),
            final(self).source == old(self).source,
            final(self).language == old(self).language,
            final(self).pos == snap.pos,
            final(self).state == snap.state,
    {
        self.pos = snap.pos;
        self.state = snap.state;
    }

    fn parse_name(&mut self, cl: CharClass, kind: SyntaxErrorKind) -> (r: Result<
        Span,
        SyntaxError,
    >)
        requires
            old(self).wf(),
        ensures
            Self::reads(
                *old(self),
                *final(self),
                r,
                leaf::name(old(self).source@, old(self).pos as int, cl, kind),
            ),
    {
        let start = self.pos;
        if !self.eat_class(cl) {
            return Err(self.emit_error(kind));
        }
        self.skip_run(cl);
        Ok(Span::new(start, self.pos))
    }

    fn parse_tag_name(&mut self) -> (r: Result<Span, SyntaxError>)
        requires
            old(self).wf(),
        ensures
            Self::scans(
                *old(self),
                *final(self),
                r,
                leaf::tag_name(old(self).source@, old(self).language, old(self).pos as int),
            ),
            r matches Ok(t) ==> t.start == old(self).pos && t.end == final(self).pos,
    {
        reveal(leaf::tag_name);
        if !self.class_is_at(0, CharClass::TagName) && self.language == Language::Astro
            && self.is_at(0, '>' as u8) {
            // Astro allows fragment
            return Ok(Span::new(self.pos, self.pos));
        }
        self.parse_name(CharClass::TagName, SyntaxErrorKind::ExpectTagName)
    }

    fn parse_attr_name(&mut self) -> (r: Result<Span, SyntaxError>)
        requires
            old(self).wf(),
        ensures
            Self::reads(
                *old(self),
                *final(self),
                r,
                leaf::attr_name(old(self).source@, old(self).pos as int),
            ),
    {
        self.parse_name(CharClass::AttrName, SyntaxErrorKind::ExpectAttrName)
    }

    fn parse_identifier(&mut self) -> (r: Result<Span, SyntaxError>)
        requires
            old(self).wf(),
        ensures
            Self::reads(
                *old(self),
                *final(self),
                r,
                leaf::identifier(old(self).source@, old(self).pos as int),
            ),
    {
        self.parse_name(CharClass::Identifier, SyntaxErrorKind::ExpectIdentifier)
    }

    /// Reads text up to the literal `close`, and the literal.
    fn parse_until(&mut self, close: &str) -> (r: Span)
        requires
            old(self).wf(),
        ensures
            r == crate::scan::until(old(self).source@, old(self).pos as int, close).0,
            r.within(old(self).source@.len()),
            Self::moved(
                *old(self),
                *final(self),
                crate::scan::until(old(self).source@, old(self).pos as int, close).1,
            ),
    {
        let start = self.pos;
        self.seek(close);
        let end = self.pos;
        self.eat_kw(close, false);
        Span::new(start, end)
    }

    fn parse_attr_value(&mut self) -> (r: Result<Span, SyntaxError>)
        requires
            old(self).wf(),
        ensures
            Self::reads(
                *old(self),
                *final(self),
                r,
                leaf::attr_value(old(self).source@, old(self).pos as int),
            ),
    {
        if self.eat('"' as u8) {
            Ok(self.parse_until("\""))
        } else if self.eat('\'' as u8) {
            Ok(self.parse_until("'"))
        } else {
            self.parse_name(CharClass::AttrValue, SyntaxErrorKind::ExpectAttrValue)
        }
    }

    fn parse_delimited(&mut self, open: &str, close: &str, kind: SyntaxErrorKind) -> (r: Result<
        Span,
        SyntaxError,
    >)
        requires
            old(self).wf(),
        ensures
            Self::scans(
                *old(self),
                *final(self),
                r,
                leaf::delimited(old(self).source@, old(self).pos as int, open, close, kind),
            ),
            r is Ok ==> old(self).pos + klen(open) <= final(self).pos,
    {
        if !self.eat_kw(open, false) {
            return Err(self.emit_error(kind));
        }
        Ok(self.parse_until(close))
    }

    fn parse_comment(&mut self) -> (r: Result<Comment, SyntaxError>)
        requires
            old(self).wf(),
        ensures
            Self::reads(
                *old(self),
                *final(self),
                r,
                leaf::comment(old(self).source@, old(self).pos as int),
            ),
            r matches Ok(v) ==> delimited_by(
                old(self).source@,
                old(self).pos as int,
                final(self).pos as int,
                v.raw,
                "<!--",
                "-->",
            ),
    {
        proof {
            crate::laws::lemma_comment_round_trip(self.source@, self.pos as int);
        }
        reveal(leaf::comment);
        proof {
            reveal_strlit("<!--");
            lemma_klen("<!--", 4);
        }
        match self.parse_delimited("<!--", "-->", SyntaxErrorKind::ExpectComment) {
            Ok(raw) => Ok(Comment { raw }),
            Err(e) => Err(e),
        }
    }

    fn parse_jinja_comment(&mut self) -> (r: Result<JinjaComment, SyntaxError>)
        requires
            old(self).wf(),
        ensures
            Self::reads(
                *old(self),
                *final(self),
                r,
                leaf::jinja_comment(old(self).source@, old(self).pos as int),
            ),
            r matches Ok(v) ==> delimited_by(
                old(self).source@,
                old(self).pos as int,
                final(self).pos as int,
                v.raw,
                "{#",
                "#}",
            ),
    {
        proof {
            crate::laws::lemma_jinja_comment_round_trip(self.source@, self.pos as int);
        }
        reveal(leaf::jinja_comment);
        proof {
            reveal_strlit("{#");
            lemma_klen("{#", 2);
        }
        match self.parse_delimited("{#", "#}", SyntaxErrorKind::ExpectComment) {
            Ok(raw) => Ok(JinjaComment { raw }),
            Err(e) => Err(e),
        }
    }

    fn parse_jinja_tag(&mut self) -> (r: Result<JinjaTag, SyntaxError>)
        requires
            old(self).wf(),
        ensures
            Self::reads(
                *old(self),
                *final(self),
                r,
                leaf::jinja_tag(old(self).source@, old(self).pos as int),
            ),
            r matches Ok(v) ==> delimited_by(
                old(self).source@,
                old(self).pos as int,
                final(self).pos as int,
                v.content,
                "{%",
                "%}",
            ),
    {
        proof {
            crate::laws::lemma_jinja_tag_round_trip(self.source@, self.pos as int);
        }
        reveal(leaf::jinja_tag);
        proof {
            reveal_strlit("{%");
            lemma_klen("{%", 2);
        }
        match self.parse_delimited("{%", "%}", SyntaxErrorKind::ExpectJinjaTag) {
            Ok(content) => Ok(JinjaTag { content }),
            Err(e) => Err(e),
        }
    }

    fn parse_mustache_interpolation(&mut self) -> (r: Result<Span, SyntaxError>)
        requires
            old(self).wf(),
        ensures
            Self::reads(
                *old(self),
                *final(self),
                r,
                leaf::mustache(old(self).source@, old(self).pos as int),
            ),
            r matches Ok(v) ==> delimited_by(
                old(self).source@,
                old(self).pos as int,
                final(self).pos as int,
                v,
                "{{",
                "}}",
            ),
    {
        proof {
            crate::laws::lemma_mustache_round_trip(self.source@, self.pos as int);
        }
        reveal(leaf::mustache);
        proof {
            reveal_strlit("{{");
            lemma_klen("{{", 2);
        }
        self.parse_delimited("{{", "}}", SyntaxErrorKind::ExpectMustacheInterpolation)
    }

    fn parse_doctype(&mut self) -> (r: Result<(), SyntaxError>)
        requires
            old(self).wf(),
        ensures
            Self::reads(
                *old(self),
                *final(self),
                r,
                leaf::doctype(old(self).source@, old(self).pos as int),
            ),
    {
        reveal(leaf::doctype);
        if !self.eat_kw("<!doctype", true) {
            return Err(self.emit_error(SyntaxErrorKind::ExpectDoctype));
        }
        self.skip_ws();
        if !self.eat_kw("html", true) {
            return Err(self.emit_error(SyntaxErrorKind::ExpectDoctype));
        }
        self.skip_ws();
        if self.eat('>' as u8) {
            Ok(())
        } else {
            Err(self.emit_error(SyntaxErrorKind::ExpectDoctype))
        }
    }

    /// Moves the cursor behind the `close` byte that balances an `open`
    /// byte just read, and gives the offset of that `close`; without one
    /// the cursor goes to the end of the input.
    fn seek_balanced(&mut self, open: u8, close: u8) -> (r: Option<usize>)
        requires
            old(self).wf(),
        ensures
            Self::follows(*old(self), *final(self)),
            final(self).state == old(self).state,
            match crate::scan::balanced(old(self).source@, old(self).pos as int, open, close, 0) {
                Some(e) => r == Some(e as usize) && final(self).pos == e + 1 && old(self).pos
                    <= e,
                None => r is None && final(self).pos == final(self).source@.len(),
            },
    {
        let ghost entry = self.pos as int;
        let mut depth: usize = 0;
        let mut found: Option<usize> = None;
        loop
            invariant_except_break
                Self::follows(*old(self), *self),
                self.state == old(self).state,
                entry == old(self).pos,
                depth <= self.pos - entry,
                found is None,
                crate::scan::balanced(self.source@, entry, open, close, 0) == crate::scan::balanced(
                    self.source@,
                    self.pos as int,
                    open,
                    close,
                    depth as nat,
                ),
            ensures
                Self::follows(*old(self), *self),
                self.state == old(self).state,
                match crate::scan::balanced(self.source@, entry, open, close, 0) {
                    Some(e) => found == Some(e as usize) && self.pos == e + 1 && entry <= e,
                    None => found is None && self.pos == self.source@.len(),
                },
            decreases self.source@.len() - self.pos,
        {
            match self.advance() {
                None => {
                    break ;
                },
                Some(c) => {
                    if c == open {
                        depth = depth + 1;
                    } else if c == close {
                        if depth == 0 {
                            found = Some(self.pos - 1);
                            break ;
                        }
                        depth = depth - 1;
                    }
                },
            }
        }
        found
    }

    /// This will consume `}`.
    fn parse_svelte_or_astro_expr(&mut self) -> (r: Result<Span, SyntaxError>)
        requires
            old(self).wf(),
        ensures
            Self::scans(
                *old(self),
                *final(self),
                r,
                Ok(leaf::braced_expr(old(self).source@, old(self).pos as int)),
            ),
    {
        reveal(leaf::braced_expr);
        self.skip_ws();
        let start = self.pos;
        match self.seek_balanced('{' as u8, '}' as u8) {
            Some(end) => Ok(Span::new(start, end)),
            None => Ok(Span::new(start, start)),
        }
    }

    /// This will consume the open and close char.
    fn parse_inside(&mut self, open: u8, close: u8, inclusive: bool) -> (r: Result<
        Span,
        SyntaxError,
    >)
        requires
            old(self).wf(),
        ensures
            Self::reads(
                *old(self),
                *final(self),
                r,
                leaf::inside(old(self).source@, old(self).pos as int, open, close, inclusive),
            ),
            r is Err ==> final(self).pos == old(self).pos,
    {
        let at_open = self.pos;
        if !self.eat(open) {
            return Err(self.emit_error(SyntaxErrorKind::ExpectChar(open as char)));
        }
        let start = if inclusive {
            at_open
        } else {
            at_open + 1
        };
        match self.seek_balanced(open, close) {
            Some(end) => Ok(
                Span::new(
                    start,
                    if inclusive {
                        end + 1
                    } else {
                        end
                    },
                ),
            ),
            None => Ok(Span::new(start, start)),
        }
    }

    fn parse_svelte_binding(&mut self) -> (r: Result<Span, SyntaxError>)
        requires
            old(self).wf(),
        ensures
            Self::reads(
                *old(self),
                *final(self),
                r,
                leaf::svelte_binding(old(self).source@, old(self).pos as int),
            ),
    {
        if self.is_at(0, '{' as u8) {
            self.parse_inside('{' as u8, '}' as u8, true)
        } else if self.is_at(0, '[' as u8) {
            self.parse_inside('[' as u8, ']' as u8, true)
        } else {
            self.parse_identifier()
        }
    }

    /// Reads `= value`, if it is there.
    fn parse_opt_value(&mut self) -> (r: Result<Option<Span>, SyntaxError>)
        requires
            old(self).wf(),
        ensures
            Self::scans(
                *old(self),
                *final(self),
                r,
                leaf::opt_value(old(self).source@, old(self).pos as int),
            ),
    {
        self.skip_ws();
        if self.eat('=' as u8) {
            self.skip_ws();
            match self.parse_attr_value() {
                Ok(v) => Ok(Some(v)),
                Err(e) => Err(e),
            }
        } else {
            Ok(None)
        }
    }

    fn parse_native_attr(&mut self) -> (r: Result<NativeAttribute, SyntaxError>)
        requires
            old(self).wf(),
        ensures
            Self::reads(
                *old(self),
                *final(self),
                r,
                leaf::native_attr(old(self).source@, old(self).pos as int),
            ),
    {
        let name = self.parse_attr_name()?;
        let value = self.parse_opt_value()?;
        Ok(NativeAttribute { name, value })
    }

    fn parse_vue_name(&mut self) -> (r: Result<Span, SyntaxError>)
        requires
            old(self).wf(),
        ensures
            Self::reads(
                *old(self),
                *final(self),
                r,
                leaf::vue_name(old(self).source@, old(self).pos as int),
            ),
    {
        let start = self.pos;
        if self.eat(':' as u8) || self.eat('@' as u8) || self.eat('#' as u8) {
            Ok(Span::new(start, self.pos))
        } else if self.is_at(0, 'v' as u8) && self.is_at(1, '-' as u8) {
            self.pos = self.pos + 2;
            match self.parse_identifier() {
                Ok(_) => Ok(Span::new(start, self.pos)),
                Err(e) => Err(e),
            }
        } else {
            Err(self.emit_error(SyntaxErrorKind::ExpectVueDirective))
        }
    }

    fn parse_vue_directive(&mut self) -> (r: Result<VueDirective, SyntaxError>)
        requires
            old(self).wf(),
        ensures
            Self::reads(
                *old(self),
                *final(self),
                r,
                leaf::vue_directive(old(self).source@, old(self).pos as int),
            ),
    {
        let punct = self.is_at(0, ':' as u8) || self.is_at(0, '@' as u8) || self.is_at(
            0,
            '#' as u8,
        );
        let name = self.parse_vue_name()?;
        let arg_and_modifiers = if punct || self.class_is_at(0, CharClass::AttrName) {
            Some(self.parse_attr_name()?)
        } else {
            None
        };
        let value = self.parse_opt_value()?;
        Ok(VueDirective { name, arg_and_modifiers, value })
    }

    /// Reads `{expr}` or `name = {expr}`.
    fn parse_braced_attr(&mut self, kind: SyntaxErrorKind) -> (r: Result<
        (Option<Span>, Span),
        SyntaxError,
    >)
        requires
            old(self).wf(),
        ensures
            Self::reads(
                *old(self),
                *final(self),
                r,
                leaf::braced_attr(old(self).source@, old(self).pos as int, kind),
            ),
    {
        let name = if self.eat('{' as u8) {
            None
        } else {
            let name = self.parse_attr_name()?;
            self.skip_ws();
            if !self.eat('=' as u8) {
                return Err(self.emit_error(kind));
            }
            self.skip_ws();
            if !self.eat('{' as u8) {
                return Err(self.emit_error(kind));
            }
            Some(name)
        };
        let expr = self.parse_svelte_or_astro_expr()?;
        Ok((name, expr))
    }

    fn parse_svelte_attr(&mut self) -> (r: Result<SvelteAttribute, SyntaxError>)
        requires
            old(self).wf(),
        ensures
            Self::reads(
                *old(self),
                *final(self),
                r,
                leaf::svelte_attr(old(self).source@, old(self).pos as int),
            ),
    {
        match self.parse_braced_attr(SyntaxErrorKind::ExpectSvelteAttr) {
            Ok((name, expr)) => Ok(SvelteAttribute { name, expr }),
            Err(e) => Err(e),
        }
    }

    fn parse_astro_attr(&mut self) -> (r: Result<AstroAttribute, SyntaxError>)
        requires
            old(self).wf(),
        ensures
            Self::reads(
                *old(self),
                *final(self),
                r,
                leaf::astro_attr(old(self).source@, old(self).pos as int),
            ),
    {
        match self.parse_braced_attr(SyntaxErrorKind::ExpectAstroAttr) {
            Ok((name, expr)) => Ok(AstroAttribute { name, expr }),
            Err(e) => Err(e),
        }
    }

    fn parse_native(&mut self) -> (r: Result<Attribute, SyntaxError>)
        requires
            old(self).wf(),
        ensures
            Self::reads(
                *old(self),
                *final(self),
                r,
                leaf::native(old(self).source@, old(self).pos as int),
            ),
    {
        match self.parse_native_attr() {
            Ok(a) => Ok(Attribute::NativeAttribute(a)),
            Err(e) => Err(e),
        }
    }

    fn parse_attr(&mut self) -> (r: Result<Attribute, SyntaxError>)
        requires
            old(self).wf(),
        ensures
            Self::reads(
                *old(self),
                *final(self),
                r,
                leaf::attr(old(self).source@, old(self).language, old(self).pos as int),
            ),
    {
        let snap = self.snapshot();
        match self.language {
            Language::Vue => match self.parse_vue_directive() {
                Ok(a) => Ok(Attribute::VueDirective(a)),
                Err(_) => {
                    self.restore(snap);
                    self.parse_native()
                },
            },
            Language::Svelte => match self.parse_svelte_attr() {
                Ok(a) => Ok(Attribute::SvelteAttribute(a)),
                Err(_) => {
                    self.restore(snap);
                    self.parse_native()
                },
            },
            Language::Astro => match self.parse_astro_attr() {
                Ok(a) => Ok(Attribute::AstroAttribute(a)),
                Err(_) => {
                    self.restore(snap);
                    self.parse_native()
                },
            },
            _ => self.parse_native(),
        }
    }

    /// Reads the attributes of an open tag and its end; gives the
    /// attributes, whether the first of them stands on the line of the tag
    /// name, and whether the tag closes itself.
    fn parse_open_tag(&mut self) -> (r: Result<(Vec<Attribute>, bool, bool), SyntaxError>)
        requires
            old(self).wf(),
        ensures
            Self::follows(*old(self), *final(self)),
            final(self).state == old(self).state,
            match leaf::open_tag(
                old(self).source@,
                old(self).language,
                old(self).pos as int,
                Seq::empty(),
                true,
            ) {
                Ok((t, q)) => r is Ok && r->Ok_0.0@ == t.attrs && r->Ok_0.1
                    == t.first_attr_same_line && r->Ok_0.2 == t.self_closing && final(self).pos
                    == q && q > old(self).pos,
                Err(e) => r == Err::<(Vec<Attribute>, bool, bool), SyntaxError>(e),
            },
            r matches Ok(t) ==> attrs_sound(t.0@, old(self).source@),
    {
        reveal(leaf::open_tag);
        let mut attrs: Vec<Attribute> = Vec::new();
        let mut first_attr_same_line = true;
        loop
            invariant
                Self::follows(*old(self), *self),
                self.state == old(self).state,
                attrs_sound(attrs@, self.source@),
                leaf::open_tag(
                    old(self).source@,
                    old(self).language,
                    old(self).pos as int,
                    Seq::empty(),
                    true,
                ) == leaf::open_tag(
                    self.source@,
                    self.language,
                    self.pos as int,
                    attrs@,
                    first_attr_same_line,
                ),
            decreases self.source@.len() - self.pos,
        {
            reveal(leaf::open_tag);
            if self.eat('/' as u8) {
                if self.eat('>' as u8) {
                    return Ok((attrs, first_attr_same_line, true));
                }
                return Err(self.emit_error(SyntaxErrorKind::ExpectSelfCloseTag));
            } else if self.eat('>' as u8) {
                return Ok((attrs, first_attr_same_line, false));
            } else if self.eat('\n' as u8) {
                if attrs.len() == 0 {
                    first_attr_same_line = false;
                }
            } else if self.eat_class(CharClass::Whitespace) {
            } else {
                let attr = self.parse_attr()?;
                attrs.push(attr);
            }
        }
    }

    /// Whether text that runs up to the cursor ends there.
    fn at_text_boundary(&self) -> (r: bool)
        requires
            self.wf(),
        ensures
            r == leaf::text_boundary(
                self.source@,
                self.language,
                self.state.has_astro_front_matter,
                self.pos as int,
            ),
    {
        if self.is_at(0, '{' as u8) {
            match self.language {
                Language::Html => false,
                Language::Vue | Language::Vento => self.is_at(1, '{' as u8),
                Language::Svelte | Language::Astro => true,
                Language::Jinja => self.is_at(1, '%' as u8) || self.is_at(1, '{' as u8)
                    || self.is_at(1, '#' as u8),
            }
        } else if self.is_at(0, '<' as u8) {
            self.class_is_at(1, CharClass::TagName) || self.is_at(1, '/' as u8) || self.is_at(
                1,
                '!' as u8,
            ) || (self.is_at(1, '>' as u8) && self.language == Language::Astro)
        } else if self.is_at(0, '-' as u8) {
            self.language == Language::Astro && !self.state.has_astro_front_matter && self.is_at(
                1,
                '-' as u8,
            ) && self.is_at(2, '-' as u8)
        } else {
            false
        }
    }

    fn parse_text_node(&mut self) -> (r: Result<TextNode, SyntaxError>)
        requires
            old(self).wf(),
        ensures
            Self::reads(
                *old(self),
                *final(self),
                r,
                leaf::text_node(
                    old(self).source@,
                    old(self).language,
                    old(self).state.has_astro_front_matter,
                    old(self).pos as int,
                ),
            ),
            r matches Ok(t) ==> t.raw == span(old(self).pos as int, final(self).pos as int)
                && t.line_breaks == line_breaks(
                old(self).source@,
                old(self).pos as int,
                final(self).pos as int,
            ),
    {
        reveal(leaf::text_node);
        let start = self.pos;
        let first = match self.peek() {
            Some(c) => c,
            None => {
                return Err(self.emit_error(SyntaxErrorKind::ExpectTextNode));
            },
        };
        if self.language == Language::Svelte && first == '{' as u8 {
            return Err(self.emit_error(SyntaxErrorKind::ExpectTextNode));
        }
        self.pos = self.pos + 1;
        if self.language == Language::Vue && first == '{' as u8 && self.is_at(0, '{' as u8) {
            return Err(self.emit_error(SyntaxErrorKind::ExpectTextNode));
        }
        let mut breaks: u32 = if first == '\n' as u8 {
            1
        } else {
            0
        };
        assert(line_breaks(self.source@, start as int, start as int) == 0);
        loop
            invariant
                Self::follows(*old(self), *self),
                self.state == old(self).state,
                start == old(self).pos,
                start < self.pos,
                breaks == line_breaks(self.source@, start as int, self.pos as int),
                breaks <= self.pos - start,
                leaf::text_end(
                    self.source@,
                    self.language,
                    self.state.has_astro_front_matter,
                    start + 1,
                ) == leaf::text_end(
                    self.source@,
                    self.language,
                    self.state.has_astro_front_matter,
                    self.pos as int,
                ),
            ensures
                self.pos == leaf::text_end(
                    self.source@,
                    self.language,
                    self.state.has_astro_front_matter,
                    start + 1,
                ),
            decreases self.source@.len() - self.pos,
        {
            match self.peek() {
                None => {
                    break ;
                },
                Some(c) => {
                    if self.at_text_boundary() {
                        break ;
                    }
                    if c == '\n' as u8 {
                        breaks = breaks + 1;
                    }
                    self.pos = self.pos + 1;
                },
            }
        }
        Ok(TextNode { raw: Span::new(start, self.pos), line_breaks: breaks })
    }

    /// Whether raw text inside the element named `tag` ends at the cursor.
    fn at_raw_text_boundary(&self, tag: &[u8]) -> (r: bool)
        requires
            self.wf(),
        ensures
            r == leaf::raw_text_boundary(self.source@, self.pos as int, tag@),
    {
        if self.is_at(0, '<' as u8) && self.is_at(1, '/' as u8) {
            let n = self.match_len(self.pos + 2, tag, true);
            n == tag.len() || self.pos + 2 + n == self.source.len()
        } else {
            false
        }
    }

    fn parse_raw_text_node(&mut self, tag_name: Span) -> (r: Result<TextNode, SyntaxError>)
        requires
            old(self).wf(),
            tag_name.within(old(self).source@.len()),
        ensures
            Self::scans(
                *old(self),
                *final(self),
                r,
                Ok(leaf::raw_text_node(old(self).source@, old(self).pos as int, tag_name)),
            ),
            old(self).pos < old(self).source@.len() && !at(
                old(self).source@,
                old(self).pos as int,
                '<' as u8,
            ) ==> old(self).pos < final(self).pos,
    {
        reveal(leaf::raw_text_node);
        let start = self.pos;
        let tag = tag_name.slice(self.source);
        let mut breaks: u32 = 0;
        loop
            invariant
                Self::follows(*old(self), *self),
                self.state == old(self).state,
                start == old(self).pos,
                tag@ == tag_name.text(self.source@),
                breaks == line_breaks(self.source@, start as int, self.pos as int),
                breaks <= self.pos - start,
                leaf::raw_text_end(self.source@, start as int, tag@) == leaf::raw_text_end(
                    self.source@,
                    self.pos as int,
                    tag@,
                ),
            ensures
                self.pos == leaf::raw_text_end(self.source@, start as int, tag@),
            decreases self.source@.len() - self.pos,
        {
            match self.peek() {
                None => {
                    break ;
                },
                Some(c) => {
                    if self.at_raw_text_boundary(tag) {
                        break ;
                    }
                    if c == '\n' as u8 {
                        breaks = breaks + 1;
                    }
                    self.pos = self.pos + 1;
                },
            }
        }
        proof {
            lemma_raw_text_end_bounds(self.source@, start as int, tag@);
        }
        Ok(TextNode { raw: Span::new(start, self.pos), line_breaks: breaks })
    }

    fn parse_svelte_at_tag(&mut self) -> (r: Result<SvelteAtTag, SyntaxError>)
        requires
            old(self).wf(),
        ensures
            Self::reads(
                *old(self),
                *final(self),
                r,
                leaf::svelte_at_tag(old(self).source@, old(self).pos as int),
            ),
    {
        reveal(leaf::svelte_at_tag);
        if !self.eat_kw("{@", false) {
            return Err(self.emit_error(SyntaxErrorKind::ExpectSvelteAtTag));
        }
        let name = self.parse_identifier()?;
        self.skip_ws();
        let expr = self.parse_svelte_or_astro_expr()?;
        Ok(SvelteAtTag { name, expr })
    }

    fn parse_svelte_interpolation(&mut self) -> (r: Result<SvelteInterpolation, SyntaxError>)
        requires
            old(self).wf(),
        ensures
            Self::reads(
                *old(self),
                *final(self),
                r,
                leaf::svelte_interpolation(old(self).source@, old(self).pos as int),
            ),
    {
        reveal(leaf::svelte_interpolation);
        if self.eat('{' as u8) {
            Ok(SvelteInterpolation { expr: self.parse_svelte_or_astro_expr()? })
        } else {
            Err(self.emit_error(SyntaxErrorKind::ExpectSvelteInterpolation))
        }
    }

    fn parse_astro_front_matter(&mut self) -> (r: Result<AstroFrontMatter, SyntaxError>)
        requires
            old(self).wf(),
        ensures
            Self::follows(*old(self), *final(self)),
            match leaf::front_matter(old(self).source@, old(self).pos as int) {
                Ok((v, q)) => r == Ok::<AstroFrontMatter, SyntaxError>(v) && final(self).pos == q
                    && final(self).state.has_astro_front_matter && old(self).pos < q
                    && v.sound(final(self).source@),
                Err(e) => r == Err::<AstroFrontMatter, SyntaxError>(e) && final(self).state
                    == old(self).state,
            },
    {
        reveal(leaf::front_matter);
        proof {
            reveal_strlit("---");
            lemma_klen("---", 3);
        }
        if !self.eat_kw("---", false) {
            return Err(self.emit_error(SyntaxErrorKind::ExpectAstroFrontMatter));
        }
        let start = self.pos;
        let mut pair_stack: Vec<u8> = Vec::new();
        let mut end = start;
        loop
            invariant_except_break
                end == start,
                leaf::fence(self.source@, start as int, Seq::empty()) == leaf::fence(
                    self.source@,
                    self.pos as int,
                    pair_stack@,
                ),
            invariant
                Self::follows(*old(self), *self),
                self.state == old(self).state,
                start <= self.pos,
            ensures
                start <= end <= self.pos,
                match leaf::fence(self.source@, start as int, Seq::empty()) {
                    Some(e) => end == e && self.pos == e + 3,
                    None => end == start && self.pos == self.source@.len(),
                },
            decreases self.source@.len() - self.pos,
        {
            let c = match self.advance() {
                Some(c) => c,
                None => {
                    break ;
                },
            };
            let depth = pair_stack.len();
            let top: u8 = if depth > 0 {
                pair_stack[depth - 1]
            } else {
                0
            };
            if c == '-' as u8 && depth == 0 {
                if self.is_at(0, '-' as u8) && self.is_at(1, '-' as u8) {
                    end = self.pos - 1;
                    self.pos = self.pos + 2;
                    break ;
                }
            } else if c == '\'' as u8 || c == '"' as u8 || c == '`' as u8 {
                if depth > 0 && top == c {
                    pair_stack.pop();
                } else if depth == 0 || top == '$' as u8 || top == '{' as u8 {
                    pair_stack.push(c);
                }
            } else if c == '$' as u8 && depth > 0 && top == '`' as u8 {
                if self.eat('{' as u8) {
                    pair_stack.push('$' as u8);
                }
            } else if c == '{' as u8 && (depth == 0 || top == '$' as u8 || top == '{' as u8) {
                pair_stack.push('{' as u8);
            } else if c == '}' as u8 && depth > 0 && (top == '$' as u8 || top == '{' as u8) {
                pair_stack.pop();
            } else if c == '/' as u8 && (depth == 0 || top == '$' as u8 || top == '}' as u8) {
                if self.is_at(0, '/' as u8) || self.is_at(0, '*' as u8) {
                    match self.advance() {
                        Some(d) => {
                            pair_stack.push(d);
                        },
                        None => {},
                    }
                }
            } else if c == '\n' as u8 {
                if depth > 0 && top == '/' as u8 {
                    pair_stack.pop();
                }
            } else if c == '*' as u8 {
                if depth > 0 && top == '*' as u8 && self.eat('/' as u8) {
                    pair_stack.pop();
                }
            } else if c == '\\' as u8 && depth > 0 && (top == '\'' as u8 || top == '"' as u8
                || top == '`' as u8) {
                self.advance();
            }
        }
        self.state.has_astro_front_matter = true;
        Ok(AstroFrontMatter { raw: Span::new(start, end) })
    }

    /// Reads the head of a block tag: the literal `kw` and one byte of
    /// whitespace. Where they do not stand at the cursor, it stops at the
    /// first byte that differs.
    fn parse_block_open(&mut self, kw: &str) -> (r: bool)
        requires
            old(self).wf(),
        ensures
            Self::follows(*old(self), *final(self)),
            final(self).state == old(self).state,
            match leaf::block_open(old(self).source@, old(self).pos as int, kw) {
                Ok(a) => r && final(self).pos == a && old(self).pos < a,
                Err(a) => !r && final(self).pos == a,
            },
    {
        reveal(leaf::block_open);
        if !self.eat_kw(kw, false) {
            return false;
        }
        self.eat_class(CharClass::Whitespace)
    }

    /// Reads the literal `kw`, optional whitespace, and `}`. Where they do
    /// not stand at the cursor, it stops at the first byte that differs.
    fn parse_block_tag(&mut self, kw: &str) -> (r: bool)
        requires
            old(self).wf(),
        ensures
            Self::follows(*old(self), *final(self)),
            final(self).state == old(self).state,
            match leaf::block_tag(old(self).source@, old(self).pos as int, kw) {
                Ok(a) => r && final(self).pos == a && old(self).pos < a,
                Err(a) => !r && final(self).pos == a,
            },
    {
        reveal(leaf::block_tag);
        if !self.eat_kw(kw, false) {
            return false;
        }
        self.skip_ws();
        self.eat('}' as u8)
    }

    /// Reads the expression of `{#each` and the `as` behind it; gives the
    /// end of the expression.
    fn scan_each_expr(&mut self) -> (end: usize)
        requires
            old(self).wf(),
        ensures
            Self::follows(*old(self), *final(self)),
            final(self).state == old(self).state,
            old(self).pos <= end <= final(self).pos,
            (end as int, final(self).pos as int) == leaf::each_expr(
                old(self).source@,
                old(self).pos as int,
                old(self).pos as int,
            ),
    {
        let start = self.pos;
        let mut end = start;
        loop
            invariant_except_break
                leaf::each_expr(self.source@, start as int, start as int) == leaf::each_expr(
                    self.source@,
                    self.pos as int,
                    end as int,
                ),
            invariant
                Self::follows(*old(self), *self),
                self.state == old(self).state,
                start == old(self).pos,
                start <= end <= self.pos,
            ensures
                (end as int, self.pos as int) == leaf::each_expr(
                    self.source@,
                    start as int,
                    start as int,
                ),
            decreases self.source@.len() - self.pos,
        {
            match self.peek() {
                None => {
                    break ;
                },
                Some(c) => {
                    end = self.pos;
                    self.pos = self.pos + 1;
                    if is_ascii_whitespace(c) {
                        self.skip_ws();
                        if self.at_kw("as") {
                            self.eat_kw("as", false);
                            break ;
                        }
                    }
                },
            }
        }
        end
    }

    /// Reads the expression of `{#await`; gives its end.
    fn scan_await_expr(&mut self) -> (end: usize)
        requires
            old(self).wf(),
        ensures
            Self::follows(*old(self), *final(self)),
            final(self).state == old(self).state,
            old(self).pos <= end <= final(self).pos,
            (end as int, final(self).pos as int) == leaf::await_expr(
                old(self).source@,
                old(self).pos as int,
                0,
                old(self).pos as int,
            ),
    {
        let start = self.pos;
        let mut end = start;
        let mut depth: usize = 0;
        loop
            invariant_except_break
                leaf::await_expr(self.source@, start as int, 0, start as int) == leaf::await_expr(
                    self.source@,
                    self.pos as int,
                    depth as nat,
                    end as int,
                ),
            invariant
                Self::follows(*old(self), *self),
                self.state == old(self).state,
                start == old(self).pos,
                start <= end <= self.pos,
                depth <= self.pos - start,
            ensures
                (end as int, self.pos as int) == leaf::await_expr(
                    self.source@,
                    start as int,
                    0,
                    start as int,
                ),
            decreases self.source@.len() - self.pos,
        {
            match self.peek() {
                None => {
                    break ;
                },
                Some(c) => {
                    if is_ascii_whitespace(c) {
                        let i = self.pos;
                        self.pos = self.pos + 1;
                        self.skip_ws();
                        if depth == 0 && (self.at_kw("then") || self.at_kw("catch")) {
                            end = i;
                            break ;
                        }
                    } else if c == '{' as u8 {
                        depth = depth + 1;
                        end = self.pos;
                        self.pos = self.pos + 1;
                    } else if c == '}' as u8 {
                        end = self.pos;
                        if depth == 0 {
                            break ;
                        }
                        self.pos = self.pos + 1;
                        depth = depth - 1;
                    } else {
                        end = self.pos;
                        self.pos = self.pos + 1;
                    }
                },
            }
        }
        end
    }

    /// Reads the keyword `kw` and a binding behind it, if the keyword is
    /// there.
    fn parse_opt_binding(&mut self, kw: &str) -> (r: Result<Option<Span>, SyntaxError>)
        requires
            old(self).wf(),
        ensures
            Self::scans(
                *old(self),
                *final(self),
                r,
                leaf::opt_binding(old(self).source@, old(self).pos as int, kw),
            ),
    {
        self.skip_ws();
        if self.eat_kw(kw, false) {
            self.skip_ws();
            match self.parse_svelte_binding() {
                Ok(b) => Ok(Some(b)),
                Err(e) => Err(e),
            }
        } else {
            Ok(None)
        }
    }

    fn parse_each_index(&mut self) -> (r: Result<Option<Span>, SyntaxError>)
        requires
            old(self).wf(),
        ensures
            Self::scans(
                *old(self),
                *final(self),
                r,
                leaf::each_index(old(self).source@, old(self).pos as int),
            ),
    {
        self.skip_ws();
        if self.eat(',' as u8) {
            self.skip_ws();
            match self.parse_identifier() {
                Ok(i) => Ok(Some(i)),
                Err(e) => Err(e),
            }
        } else {
            Ok(None)
        }
    }

    fn parse_each_key(&mut self) -> (r: Result<Option<Span>, SyntaxError>)
        requires
            old(self).wf(),
        ensures
            Self::scans(
                *old(self),
                *final(self),
                r,
                leaf::each_key(old(self).source@, old(self).pos as int),
            ),
    {
        self.skip_ws();
        if self.is_at(0, '(' as u8) {
            match self.parse_inside('(' as u8, ')' as u8, false) {
                Ok(k) => Ok(Some(k)),
                Err(e) => Err(e),
            }
        } else {
            Ok(None)
        }
    }

    fn parse_each_header(&mut self) -> (r: Result<EachHeader, SyntaxError>)
        requires
            old(self).wf(),
        ensures
            Self::reads(
                *old(self),
                *final(self),
                r,
                leaf::each_header(old(self).source@, old(self).pos as int),
            ),
    {
        reveal(leaf::each_header);
        if !self.parse_block_open("{#each") {
            return Err(self.emit_error(SyntaxErrorKind::ExpectSvelteIfBlock));
        }
        self.skip_ws();
        let start = self.pos;
        let end = self.scan_each_expr();
        self.skip_ws();
        let binding = self.parse_svelte_binding()?;
        let index = self.parse_each_index()?;
        let key = self.parse_each_key()?;
        self.skip_ws();
        if !self.eat('}' as u8) {
            return Err(self.emit_error(SyntaxErrorKind::ExpectSvelteEachBlock));
        }
        Ok(EachHeader { expr: Span::new(start, end), binding, index, key })
    }

    fn parse_await_header(&mut self) -> (r: Result<AwaitHeader, SyntaxError>)
        requires
            old(self).wf(),
        ensures
            Self::reads(
                *old(self),
                *final(self),
                r,
                leaf::await_header(old(self).source@, old(self).pos as int),
            ),
    {
        reveal(leaf::await_header);
        if !self.parse_block_open("{#await") {
            return Err(self.emit_error(SyntaxErrorKind::ExpectSvelteIfBlock));
        }
        self.skip_ws();
        let start = self.pos;
        let end = self.scan_await_expr();
        let then_binding = self.parse_opt_binding("then")?;
        let catch_binding = self.parse_opt_binding("catch")?;
        self.skip_ws();
        if !self.eat('}' as u8) {
            return Err(self.emit_error(SyntaxErrorKind::ExpectChar('}')));
        }
        Ok(AwaitHeader { expr: Span::new(start, end), then_binding, catch_binding })
    }

    /// Reads a section tag such as `{:then binding}`, if it is there.
    fn parse_section(&mut self, kw: &str, optional: bool, kind: SyntaxErrorKind) -> (r: Result<
        Option<Option<Span>>,
        SyntaxError,
    >)
        requires
            old(self).wf(),
        ensures
            Self::scans(
                *old(self),
                *final(self),
                r,
                leaf::section(old(self).source@, old(self).pos as int, kw, optional, kind),
            ),
            r matches Ok(Some(_)) ==> old(self).pos < final(self).pos,
            r matches Ok(Some(b)) ==> optional || b is Some,
    {
        reveal(leaf::section);
        if !self.at_kw(kw) {
            return Ok(None);
        }
        self.eat_kw(kw, false);
        self.skip_ws();
        if optional && self.eat('}' as u8) {
            return Ok(Some(None));
        }
        let binding = self.parse_svelte_binding()?;
        self.skip_ws();
        if !self.eat('}' as u8) {
            return Err(self.emit_error(kind));
        }
        Ok(Some(Some(binding)))
    }

    /// Reads the end tag of the element named by `tag`.
    fn parse_close_tag(&mut self, tag: Span) -> (r: Result<(), SyntaxError>)
        requires
            old(self).wf(),
            tag.within(old(self).source@.len()),
            at(old(self).source@, old(self).pos as int, '<' as u8),
            at(old(self).source@, old(self).pos + 1, '/' as u8),
        ensures
            Self::follows(*old(self), *final(self)),
            final(self).state == old(self).state,
            match leaf::close_tag(old(self).source@, old(self).language, old(self).pos as int, tag) {
                Ok(q) => r is Ok && final(self).pos == q && old(self).pos < q,
                Err(e) => r == Err::<(), SyntaxError>(e),
            },
    {
        reveal(leaf::close_tag);
        let slash = self.pos + 1;
        self.pos = self.pos + 2;
        let name = self.parse_tag_name()?;
        if !bytes_eq(name.slice(self.source), tag.slice(self.source), true) {
            return Err(SyntaxError { kind: SyntaxErrorKind::ExpectCloseTag, pos: slash });
        }
        self.skip_ws();
        if self.eat('>' as u8) {
            Ok(())
        } else {
            Err(self.emit_error(SyntaxErrorKind::ExpectCloseTag))
        }
    }

    /// A routine that took the parser from `pre` to `post` and returned `r`
    /// has read what the grammar rule `want` says: on success the tree
    /// stands for the model of the rule, and the cursor and the front
    /// matter flag are those of the rule; on failure the error is.
    spec fn parses<T: Model>(pre: Self, post: Self, r: Result<T, SyntaxError>, want: Parse<T::M>) -> bool {
        &&& Self::follows(pre, post)
        &&& match want {
            Ok((v, q, f)) => r is Ok && r->Ok_0.model() == v && post.pos == q
                && post.state.has_astro_front_matter == f,
            Err(e) => r is Err && r->Err_0 == e,
        }
    }

    /// The construct that starts at the cursor.
    fn branch(&self) -> (r: Branch)
        requires
            self.wf(),
        ensures
            r == tree::branch(
                self.source@,
                self.language,
                self.state.has_astro_front_matter,
                self.pos as int,
            ),
            r != Branch::EndOfInput ==> self.pos < self.source@.len(),
    {
        reveal(tree::branch);
        let lang = self.language;
        if self.is_at(0, '<' as u8) {
            if self.class_is_at(1, CharClass::TagName) {
                Branch::Element
            } else if self.is_at(1, '!' as u8) {
                if lang == Language::Vue || lang == Language::Svelte {
                    Branch::Comment
                } else {
                    Branch::CommentOrDoctype
                }
            } else if self.is_at(1, '>' as u8) && lang == Language::Astro {
                Branch::Element
            } else {
                Branch::Text
            }
        } else if self.is_at(0, '{' as u8) {
            if self.is_at(1, '{' as u8) && lang == Language::Vue {
                Branch::VueInterpolation
            } else if self.is_at(1, '{' as u8) && lang == Language::Jinja {
                Branch::JinjaInterpolation
            } else if self.is_at(1, '{' as u8) && lang == Language::Vento {
                Branch::VentoTagOrBlock
            } else if self.is_at(1, '#' as u8) && lang == Language::Svelte {
                Branch::SvelteBlock
            } else if self.is_at(1, '#' as u8) && lang == Language::Jinja {
                Branch::JinjaComment
            } else if self.is_at(1, '@' as u8) {
                Branch::SvelteAtTag
            } else if self.is_at(1, '%' as u8) && lang == Language::Jinja {
                Branch::JinjaTagOrBlock
            } else if lang == Language::Svelte {
                Branch::SvelteInterpolation
            } else if lang == Language::Astro {
                Branch::AstroExpr
            } else {
                Branch::Text
            }
        } else if self.pos >= self.source.len() {
            Branch::EndOfInput
        } else if self.is_at(0, '-' as u8) && lang == Language::Astro
            && !self.state.has_astro_front_matter && self.is_at(1, '-' as u8) && self.is_at(
            2,
            '-' as u8,
        ) {
            Branch::AstroFrontMatter
        } else {
            Branch::Text
        }
    }

    fn parse_text(&mut self) -> (r: Result<Node, SyntaxError>)
        requires
            old(self).wf(),
        ensures
            Self::parses(
                *old(self),
                *final(self),
                r,
                tree::text(
                    leaf::text_node(
                        old(self).source@,
                        old(self).language,
                        old(self).state.has_astro_front_matter,
                        old(self).pos as int,
                    ),
                    old(self).state.has_astro_front_matter,
                ),
            ),
            r matches Ok(n) ==> old(self).pos < final(self).pos && node_sound(
                n.model(),
                old(self).source@,
                old(self).language,
            ),
    {
        match self.parse_text_node() {
            Ok(t) => Ok(Node::TextNode(t)),
            Err(e) => Err(e),
        }
    }

    fn parse_node(&mut self) -> (r: Result<Node, SyntaxError>)
        requires
            old(self).wf(),
        ensures
            Self::parses(
                *old(self),
                *final(self),
                r,
                tree::node(
                    old(self).source@,
                    old(self).language,
                    old(self).state.has_astro_front_matter,
                    old(self).pos as int,
                ),
            ),
            r matches Ok(n) ==> old(self).pos < final(self).pos && node_sound(
                n.model(),
                old(self).source@,
                old(self).language,
            ),
            r matches Err(e) ==> old(self).pos < old(self).source@.len() ==> e.kind
                != SyntaxErrorKind::ExpectElement,
        decreases old(self).source@.len() - old(self).pos, 2int,
    {
        proof {
            if self.pos < self.source@.len() {
                crate::progress::lemma_node_expects_element_only_at_end(
                    self.source@,
                    self.language,
                    self.state.has_astro_front_matter,
                    self.pos as int,
                );
            }
        }
        let snap = self.snapshot();
        match self.branch() {
            Branch::EndOfInput => Err(self.emit_error(SyntaxErrorKind::ExpectElement)),
            Branch::Element => match self.parse_element() {
                Ok(e) => Ok(Node::Element(e)),
                Err(e) => Err(e),
            },
            Branch::CommentOrDoctype => {
                match self.parse_comment() {
                    Ok(c) => {
                        return Ok(Node::Comment(c));
                    },
                    Err(_) => {
                        self.restore(snap);
                    },
                }
                match self.parse_doctype() {
                    Ok(_) => {
                        return Ok(Node::Doctype);
                    },
                    Err(_) => {
                        self.restore(snap);
                    },
                }
                self.parse_text()
            },
            Branch::Comment => match self.parse_comment() {
                Ok(c) => Ok(Node::Comment(c)),
                Err(e) => Err(e),
            },
            Branch::Text => self.parse_text(),
            Branch::VueInterpolation => match self.parse_mustache_interpolation() {
                Ok(expr) => Ok(Node::VueInterpolation(VueInterpolation { expr })),
                Err(e) => Err(e),
            },
            Branch::JinjaInterpolation => match self.parse_mustache_interpolation() {
                Ok(expr) => Ok(Node::JinjaInterpolation(JinjaInterpolation { expr })),
                Err(e) => Err(e),
            },
            Branch::VentoTagOrBlock => self.parse_vento_tag_or_block(None),
            Branch::SvelteBlock => self.parse_svelte_block(),
            Branch::JinjaComment => match self.parse_jinja_comment() {
                Ok(c) => Ok(Node::JinjaComment(c)),
                Err(e) => Err(e),
            },
            Branch::SvelteAtTag => match self.parse_svelte_at_tag() {
                Ok(t) => Ok(Node::SvelteAtTag(t)),
                Err(e) => Err(e),
            },
            Branch::JinjaTagOrBlock => self.parse_jinja_tag_or_block(None),
            Branch::SvelteInterpolation => match self.parse_svelte_interpolation() {
                Ok(i) => Ok(Node::SvelteInterpolation(i)),
                Err(e) => Err(e),
            },
            Branch::AstroExpr => match self.parse_astro_expr() {
                Ok(e) => Ok(Node::AstroExpr(e)),
                Err(e) => Err(e),
            },
            Branch::AstroFrontMatter => match self.parse_astro_front_matter() {
                Ok(m) => Ok(Node::AstroFrontMatter(m)),
                Err(e) => Err(e),
            },
        }
    }

    /// Reads a Svelte block that starts with `{#`: the first of the four
    /// kinds that can be read in full.
    #[verifier::rlimit(40)]
    fn parse_svelte_block(&mut self) -> (r: Result<Node, SyntaxError>)
        requires
            old(self).wf(),
            old(self).pos < old(self).source@.len(),
        ensures
            Self::parses(
                *old(self),
                *final(self),
                r,
                tree::svelte_block(
                    old(self).source@,
                    old(self).language,
                    old(self).state.has_astro_front_matter,
                    old(self).pos as int,
                ),
            ),
            r matches Ok(n) ==> old(self).pos < final(self).pos && node_sound(
                n.model(),
                old(self).source@,
                old(self).language,
            ),
        decreases old(self).source@.len() - old(self).pos, 1int,
    {
        let snap = self.snapshot();
        let hash = self.pos + 1;
        match self.parse_svelte_if_block() {
            Ok(b) => {
                return Ok(Node::SvelteIfBlock(b));
            },
            Err(_) => {
                self.restore(snap);
            },
        }
        match self.parse_svelte_each_block() {
            Ok(b) => {
                return Ok(Node::SvelteEachBlock(b));
            },
            Err(_) => {
                self.restore(snap);
            },
        }
        match self.parse_svelte_await_block() {
            Ok(b) => {
                return Ok(Node::SvelteAwaitBlock(b));
            },
            Err(_) => {
                self.restore(snap);
            },
        }
        match self.parse_svelte_key_block() {
            Ok(b) => {
                return Ok(Node::SvelteKeyBlock(b));
            },
            Err(_) => {
                self.restore(snap);
            },
        }
        Err(SyntaxError { kind: SyntaxErrorKind::UnknownSvelteBlock, pos: hash })
    }

    /// Reads the whole source from the cursor on, node by node.
    ///
    /// The root holds exactly the nodes that the grammar rule
    /// [`tree::root`] gives for the source, and the cursor ends at the end
    /// of the source; where the rule fails, its error is returned. Every
    /// node of the root is sound in the sense of [`crate::sound`], and
    /// every span in it lies between characters of the source, so that
    /// [`Span::resolve`] gives its text. Reading never fails for want of
    /// an element: below the end of the source some construct always
    /// starts.
    pub fn parse_root(&mut self) -> (r: PResult<Root>)
        requires
            old(self).wf(),
        ensures
            final(self).wf(),
            final(self).src() == old(self).src(),
            final(self).dialect() == old(self).dialect(),
            match tree::root(
                old(self).src(),
                old(self).dialect(),
                old(self).front_matter_seen(),
                old(self).offset(),
                Seq::empty(),
            ) {
                Ok((nodes, q, f)) => r is Ok && r->Ok_0.model() == nodes && final(self).offset()
                    == q && q == old(self).src().len() && final(self).front_matter_seen() == f,
                Err(e) => r is Err && r->Err_0 == e,
            },
            r matches Ok(root) ==> nodes_sound(root.model(), old(self).src(), old(self).dialect()),
            r matches Err(e) ==> e.kind != SyntaxErrorKind::ExpectElement,
            r matches Ok(root) ==> (old(self).between_chars() ==> nodes_on_chars(
                root.model(),
                old(self).src(),
            ) && final(self).between_chars()),
    {
        proof {
            crate::progress::lemma_root_expects(
                self.source@,
                self.language,
                self.state.has_astro_front_matter,
                self.pos as int,
                Seq::empty(),
            );
        }
        let mut children: Vec<Node> = Vec::new();
        proof {
            lemma_nodes_empty();
            if self.between_chars() {
                lemma_root_on_chars(
                    self.source@,
                    self.language,
                    self.state.has_astro_front_matter,
                    self.pos as int,
                    Seq::empty(),
                );
            }
        }
        while self.pos < self.source.len()
            invariant
                Self::follows(*old(self), *self),
                nodes_sound(nodes_model(children@), self.source@, self.language),
                tree::root(
                    old(self).source@,
                    old(self).language,
                    old(self).state.has_astro_front_matter,
                    old(self).pos as int,
                    Seq::empty(),
                ) == tree::root(
                    self.source@,
                    self.language,
                    self.state.has_astro_front_matter,
                    self.pos as int,
                    nodes_model(children@),
                ),
            decreases self.source@.len() - self.pos,
        {
            let node = self.parse_node()?;
            proof {
                lemma_nodes_push(children@, node);
                lemma_nodes_sound_push(
                    nodes_model(children@),
                    node.model(),
                    self.source@,
                    self.language,
                );
            }
            children.push(node);
        }
        Ok(Root { children })
    }

    /// Whether the children of a block of kind `kind` end at the cursor.
    fn at_block_end(&self, kind: BlockKind) -> (r: bool)
        requires
            self.wf(),
        ensures
            r == kind.ends_at(self.source@, self.pos as int),
    {
        self.is_at(0, '{' as u8) && match kind {
            BlockKind::Svelte => self.is_at(1, '/' as u8) || self.is_at(1, ':' as u8),
            BlockKind::Jinja => self.is_at(1, '%' as u8),
            BlockKind::Vento => self.is_at(1, '{' as u8),
        }
    }

    /// Reads the children of a block of kind `kind`, up to the tag that
    /// ends them.
    fn parse_block_children(&mut self, kind: BlockKind) -> (r: Result<Vec<Node>, SyntaxError>)
        requires
            old(self).wf(),
        ensures
            Self::parses(
                *old(self),
                *final(self),
                r,
                tree::block_children(
                    old(self).source@,
                    old(self).language,
                    old(self).state.has_astro_front_matter,
                    old(self).pos as int,
                    kind,
                    Seq::empty(),
                ),
            ),
            r matches Ok(c) ==> nodes_sound(c.model(), old(self).source@, old(self).language),
        decreases old(self).source@.len() - old(self).pos, 3int,
    {
        let mut children: Vec<Node> = Vec::new();
        proof {
            lemma_nodes_empty();
        }
        loop
            invariant
                Self::follows(*old(self), *self),
                nodes_sound(nodes_model(children@), self.source@, self.language),
                tree::block_children(
                    old(self).source@,
                    old(self).language,
                    old(self).state.has_astro_front_matter,
                    old(self).pos as int,
                    kind,
                    Seq::empty(),
                ) == tree::block_children(
                    self.source@,
                    self.language,
                    self.state.has_astro_front_matter,
                    self.pos as int,
                    kind,
                    nodes_model(children@),
                ),
            decreases self.source@.len() - self.pos,
        {
            if self.pos >= self.source.len() {
                let kind = match kind {
                    BlockKind::Svelte => SyntaxErrorKind::ExpectSvelteBlockEnd,
                    BlockKind::Jinja => SyntaxErrorKind::ExpectJinjaBlockEnd,
                    BlockKind::Vento => SyntaxErrorKind::ExpectVentoBlockEnd,
                };
                return Err(self.emit_error(kind));
            }
            if self.at_block_end(kind) {
                return Ok(children);
            }
            let node = self.parse_node()?;
            proof {
                lemma_nodes_push(children@, node);
                lemma_nodes_sound_push(
                    nodes_model(children@),
                    node.model(),
                    self.source@,
                    self.language,
                );
            }
            children.push(node);
        }
    }

    fn parse_svelte_block_children(&mut self) -> (r: Result<Vec<Node>, SyntaxError>)
        requires
            old(self).wf(),
        ensures
            Self::parses(
                *old(self),
                *final(self),
                r,
                tree::block_children(
                    old(self).source@,
                    old(self).language,
                    old(self).state.has_astro_front_matter,
                    old(self).pos as int,
                    BlockKind::Svelte,
                    Seq::empty(),
                ),
            ),
            r matches Ok(c) ==> nodes_sound(c.model(), old(self).source@, old(self).language),
        decreases old(self).source@.len() - old(self).pos, 4int,
    {
        self.parse_block_children(BlockKind::Svelte)
    }

    fn parse_jinja_block_children(&mut self) -> (r: Result<Vec<Node>, SyntaxError>)
        requires
            old(self).wf(),
        ensures
            Self::parses(
                *old(self),
                *final(self),
                r,
                tree::block_children(
                    old(self).source@,
                    old(self).language,
                    old(self).state.has_astro_front_matter,
                    old(self).pos as int,
                    BlockKind::Jinja,
                    Seq::empty(),
                ),
            ),
            r matches Ok(c) ==> nodes_sound(c.model(), old(self).source@, old(self).language),
        decreases old(self).source@.len() - old(self).pos, 4int,
    {
        self.parse_block_children(BlockKind::Jinja)
    }

    fn parse_vento_block_children(&mut self) -> (r: Result<Vec<Node>, SyntaxError>)
        requires
            old(self).wf(),
        ensures
            Self::parses(
                *old(self),
                *final(self),
                r,
                tree::block_children(
                    old(self).source@,
                    old(self).language,
                    old(self).state.has_astro_front_matter,
                    old(self).pos as int,
                    BlockKind::Vento,
                    Seq::empty(),
                ),
            ),
            r matches Ok(c) ==> nodes_sound(c.model(), old(self).source@, old(self).language),
        decreases old(self).source@.len() - old(self).pos, 4int,
    {
        self.parse_block_children(BlockKind::Vento)
    }

    fn parse_element(&mut self) -> (r: Result<Element, SyntaxError>)
        requires
            old(self).wf(),
        ensures
            Self::parses(
                *old(self),
                *final(self),
                r,
                tree::element(
                    old(self).source@,
                    old(self).language,
                    old(self).state.has_astro_front_matter,
                    old(self).pos as int,
                ),
            ),
            r matches Ok(e) ==> old(self).pos < final(self).pos && element_sound(
                e.model(),
                old(self).source@,
                old(self).language,
            ),
            r matches Ok(e) ==> balanced_element(
                old(self).source@,
                old(self).language,
                old(self).pos as int,
                final(self).pos as int,
                e.model(),
            ),
        decreases old(self).source@.len() - old(self).pos, 0int,
    {
        proof {
            crate::laws::lemma_element_balance(
                self.source@,
                self.language,
                self.state.has_astro_front_matter,
                self.pos as int,
            );
        }
        let ghost want = tree::element(
            self.source@,
            self.language,
            self.state.has_astro_front_matter,
            self.pos as int,
        );
        if !self.eat('<' as u8) {
            return Err(self.emit_error(SyntaxErrorKind::ExpectElement));
        }
        let tag_name = self.parse_tag_name()?;
        let void_element = is_void_element(tag_name.slice(self.source), self.language);
        let (attrs, first_attr_same_line, self_closing) = self.parse_open_tag()?;
        proof {
            lemma_nodes_empty();
        }
        if self_closing || void_element {
            return Ok(
                Element {
                    tag_name,
                    attrs,
                    first_attr_same_line,
                    children: Vec::new(),
                    self_closing,
                    void_element,
                },
            );
        }
        let raw = is_raw_text_tag(tag_name.slice(self.source));
        let mut children: Vec<Node> = Vec::new();
        if raw {
            let text_node = self.parse_raw_text_node(tag_name)?;
            if !text_node.raw.is_empty() {
                proof {
                    lemma_nodes_push(children@, Node::TextNode(text_node));
                    lemma_nodes_sound_push(
                        nodes_model(children@),
                        Node::TextNode(text_node).model(),
                        self.source@,
                        self.language,
                    );
                }
                children.push(Node::TextNode(text_node));
            }
        }
        let ghost fm1 = self.state.has_astro_front_matter;
        let ghost base = self.pos as int;
        let ghost acc1 = nodes_model(children@);
        let ghost open = leaf::OpenTag {
            attrs: attrs@,
            first_attr_same_line,
            self_closing: false,
        };
        let ghost close: int = 0;
        loop
            invariant_except_break
                tree::element_children(self.source@, self.language, fm1, base, tag_name, raw, acc1)
                    == tree::element_children(
                    self.source@,
                    self.language,
                    self.state.has_astro_front_matter,
                    self.pos as int,
                    tag_name,
                    raw,
                    nodes_model(children@),
                ),
            invariant
                Self::follows(*old(self), *self),
                tag_name.within(self.source@.len()),
                tag_name.end <= base <= self.pos,
                old(self).pos < base,
                nodes_sound(nodes_model(children@), self.source@, self.language),
                attrs_sound(attrs@, self.source@),
                want == tree::element_with(
                    tag_name,
                    open,
                    tree::element_children(
                        self.source@,
                        self.language,
                        fm1,
                        base,
                        tag_name,
                        raw,
                        acc1,
                    ),
                ),
                want == tree::element(
                    old(self).source@,
                    old(self).language,
                    old(self).state.has_astro_front_matter,
                    old(self).pos as int,
                ),
            ensures
                tree::element_children(self.source@, self.language, fm1, base, tag_name, raw, acc1)
                    == Ok::<(Seq<crate::model::NodeModel>, int, bool), SyntaxError>(
                    (
                        nodes_model(children@),
                        self.pos as int,
                        self.state.has_astro_front_matter,
                    ),
                ),
                closes_at(self.source@, self.language, close, tag_name),
            decreases self.source@.len() - self.pos,
        {
            if self.pos >= self.source.len() {
                return Err(self.emit_error(SyntaxErrorKind::ExpectCloseTag));
            }
            if self.is_at(0, '<' as u8) && self.is_at(1, '/' as u8) {
                proof {
                    close = self.pos as int;
                }
                self.parse_close_tag(tag_name)?;
                break ;
            }
            let child = if raw && !self.is_at(0, '<' as u8) {
                Node::TextNode(self.parse_raw_text_node(tag_name)?)
            } else {
                self.parse_node()?
            };
            proof {
                lemma_nodes_push(children@, child);
                lemma_nodes_sound_push(
                    nodes_model(children@),
                    child.model(),
                    self.source@,
                    self.language,
                );
            }
            children.push(child);
        }
        let e = Element {
            tag_name,
            attrs,
            first_attr_same_line,
            children,
            self_closing: false,
            void_element: false,
        };
        assert(closes_at(self.source@, self.language, close, e.model().tag_name));
        Ok(e)
    }

    /// Reads the children of a section of a block.
    fn parse_section_children(&mut self) -> (r: Result<Option<Vec<Node>>, SyntaxError>)
        requires
            old(self).wf(),
        ensures
            Self::follows(*old(self), *final(self)),
            match tree::section_children(
                old(self).source@,
                old(self).language,
                old(self).state.has_astro_front_matter,
                old(self).pos as int,
                true,
            ) {
                Ok((v, q, f)) => r is Ok && opt_nodes_model(r->Ok_0) == v && final(self).pos == q
                    && final(self).state.has_astro_front_matter == f,
                Err(e) => r is Err && r->Err_0 == e,
            },
            r matches Ok(c) ==> opt_nodes_sound(
                opt_nodes_model(c),
                old(self).source@,
                old(self).language,
            ),
        decreases old(self).source@.len() - old(self).pos, 5int,
    {
        match self.parse_svelte_block_children() {
            Ok(c) => Ok(Some(c)),
            Err(e) => Err(e),
        }
    }

    fn parse_svelte_key_block(&mut self) -> (r: Result<SvelteKeyBlock, SyntaxError>)
        requires
            old(self).wf(),
        ensures
            Self::parses(
                *old(self),
                *final(self),
                r,
                tree::svelte_key_block(
                    old(self).source@,
                    old(self).language,
                    old(self).state.has_astro_front_matter,
                    old(self).pos as int,
                ),
            ),
            r matches Ok(b) ==> old(self).pos < final(self).pos && key_block_sound(
                b.model(),
                old(self).source@,
                old(self).language,
            ),
        decreases old(self).source@.len() - old(self).pos, 0int,
    {
        if !self.parse_block_open("{#key") {
            return Err(self.emit_error(SyntaxErrorKind::ExpectSvelteKeyBlock));
        }
        let expr = self.parse_svelte_or_astro_expr()?;
        let children = self.parse_svelte_block_children()?;
        if self.parse_block_tag("{/key") {
            Ok(SvelteKeyBlock { expr, children })
        } else {
            Err(self.emit_error(SyntaxErrorKind::ExpectSvelteBlockEnd))
        }
    }

    fn parse_svelte_if_block(&mut self) -> (r: Result<SvelteIfBlock, SyntaxError>)
        requires
            old(self).wf(),
        ensures
            Self::parses(
                *old(self),
                *final(self),
                r,
                tree::svelte_if_block(
                    old(self).source@,
                    old(self).language,
                    old(self).state.has_astro_front_matter,
                    old(self).pos as int,
                ),
            ),
            r matches Ok(b) ==> old(self).pos < final(self).pos && if_block_sound(
                b.model(),
                old(self).source@,
                old(self).language,
            ),
        decreases old(self).source@.len() - old(self).pos, 0int,
    {
        let ghost want = tree::svelte_if_block(
            self.source@,
            self.language,
            self.state.has_astro_front_matter,
            self.pos as int,
        );
        if !self.parse_block_open("{#if") {
            return Err(self.emit_error(SyntaxErrorKind::ExpectSvelteIfBlock));
        }
        let expr = self.parse_svelte_or_astro_expr()?;
        let children = self.parse_svelte_block_children()?;

        let mut else_if_blocks: Vec<SvelteElseIfBlock> = Vec::new();
        let mut else_children: Option<Vec<Node>> = None;
        let ghost fm1 = self.state.has_astro_front_matter;
        let ghost base = self.pos as int;
        proof {
            lemma_else_ifs_empty();
        }
        loop
            invariant_except_break
                tree::if_branches(
                    self.source@,
                    self.language,
                    fm1,
                    base,
                    Seq::empty(),
                    None,
                ) == tree::if_branches(
                    self.source@,
                    self.language,
                    self.state.has_astro_front_matter,
                    self.pos as int,
                    else_ifs_model(else_if_blocks@),
                    opt_nodes_model(else_children),
                ),
            invariant
                Self::follows(*old(self), *self),
                old(self).pos < base <= self.pos,
                want == tree::if_block_with(
                    self.source@,
                    expr,
                    nodes_model(children@),
                    tree::if_branches(self.source@, self.language, fm1, base, Seq::empty(), None),
                ),
                want == tree::svelte_if_block(
                    old(self).source@,
                    old(self).language,
                    old(self).state.has_astro_front_matter,
                    old(self).pos as int,
                ),
                else_ifs_sound(else_ifs_model(else_if_blocks@), self.source@, self.language),
                opt_nodes_sound(opt_nodes_model(else_children), self.source@, self.language),
            ensures
                tree::if_branches(self.source@, self.language, fm1, base, Seq::empty(), None) == Ok::<
                    (
                        (Seq<crate::model::ElseIfModel>, Option<Seq<crate::model::NodeModel>>),
                        int,
                        bool,
                    ),
                    SyntaxError,
                >(
                    (
                        (else_ifs_model(else_if_blocks@), opt_nodes_model(else_children)),
                        self.pos as int,
                        self.state.has_astro_front_matter,
                    ),
                ),
            decreases self.source@.len() - self.pos,
        {
            if !self.eat('{' as u8) {
                return Err(self.emit_error(SyntaxErrorKind::ExpectSvelteBlockEnd));
            }
            if self.eat('/' as u8) {
                break ;
            }
            if !self.eat(':' as u8) {
                self.advance();
                return Err(self.emit_error(SyntaxErrorKind::ExpectSvelteBlockEnd));
            }
            if !self.eat_kw("else", false) {
                return Err(self.emit_error(SyntaxErrorKind::ExpectSvelteElseIfBlock));
            }
            self.skip_ws();
            if self.eat('i' as u8) {
                if !self.eat('f' as u8) {
                    return Err(self.emit_error(SyntaxErrorKind::ExpectSvelteElseIfBlock));
                }
                let expr = self.parse_svelte_or_astro_expr()?;
                let children = self.parse_svelte_block_children()?;
                let block = SvelteElseIfBlock { expr, children };
                proof {
                    lemma_else_ifs_push(else_if_blocks@, block);
                }
                else_if_blocks.push(block);
            } else if self.eat('}' as u8) {
                else_children = Some(self.parse_svelte_block_children()?);
            } else {
                self.advance();
                return Err(self.emit_error(SyntaxErrorKind::ExpectSvelteElseIfBlock));
            }
        }
        if self.parse_block_tag("if") {
            Ok(SvelteIfBlock { expr, children, else_if_blocks, else_children })
        } else {
            Err(self.emit_error(SyntaxErrorKind::ExpectSvelteBlockEnd))
        }
    }

    fn parse_svelte_each_block(&mut self) -> (r: Result<SvelteEachBlock, SyntaxError>)
        requires
            old(self).wf(),
        ensures
            Self::parses(
                *old(self),
                *final(self),
                r,
                tree::svelte_each_block(
                    old(self).source@,
                    old(self).language,
                    old(self).state.has_astro_front_matter,
                    old(self).pos as int,
                ),
            ),
            r matches Ok(b) ==> old(self).pos < final(self).pos && each_block_sound(
                b.model(),
                old(self).source@,
                old(self).language,
            ),
        decreases old(self).source@.len() - old(self).pos, 0int,
    {
        let head = self.parse_each_header()?;
        let children = self.parse_svelte_block_children()?;
        let snap = self.snapshot();
        let else_children = if self.parse_block_tag("{:else") {
            self.parse_section_children()?
        } else {
            self.restore(snap);
            None
        };
        if self.parse_block_tag("{/each") {
            Ok(
                SvelteEachBlock {
                    expr: head.expr,
                    binding: head.binding,
                    index: head.index,
                    key: head.key,
                    children,
                    else_children,
                },
            )
        } else {
            Err(self.emit_error(SyntaxErrorKind::ExpectSvelteBlockEnd))
        }
    }

    fn parse_svelte_await_block(&mut self) -> (r: Result<Box<SvelteAwaitBlock>, SyntaxError>)
        requires
            old(self).wf(),
        ensures
            Self::parses(
                *old(self),
                *final(self),
                r,
                tree::svelte_await_block(
                    old(self).source@,
                    old(self).language,
                    old(self).state.has_astro_front_matter,
                    old(self).pos as int,
                ),
            ),
            r matches Ok(b) ==> old(self).pos < final(self).pos && await_block_sound(
                b.model(),
                old(self).source@,
                old(self).language,
            ),
        decreases old(self).source@.len() - old(self).pos, 0int,
    {
        let head = self.parse_await_header()?;
        let children = self.parse_svelte_block_children()?;
        let then_block = match self.parse_section(
            "{:then",
            false,
            SyntaxErrorKind::ExpectSvelteThenBlock,
        )? {
            Some(Some(binding)) => match self.parse_section_children()? {
                Some(children) => Some(SvelteThenBlock { binding, children }),
                None => None,
            },
            _ => None,
        };
        let catch_block = match self.parse_section(
            "{:catch",
            true,
            SyntaxErrorKind::ExpectSvelteCatchBlock,
        )? {
            Some(binding) => match self.parse_section_children()? {
                Some(children) => Some(SvelteCatchBlock { binding, children }),
                None => None,
            },
            None => None,
        };
        if self.parse_block_tag("{/await") {
            Ok(
                Box::new(
                    SvelteAwaitBlock {
                        expr: head.expr,
                        then_binding: head.then_binding,
                        catch_binding: head.catch_binding,
                        children,
                        then_block,
                        catch_block,
                    },
                ),
            )
        } else {
            Err(self.emit_error(SyntaxErrorKind::ExpectSvelteBlockEnd))
        }
    }

    /// The rule that [`Parser::parse_jinja_tag_or_block`] follows from
    /// offset `p`: with a first tag given, what that tag starts; without
    /// one, a tag and what it starts.
    spec fn jinja_tag_or_block(
        s: Seq<u8>,
        lang: Language,
        fm: bool,
        p: int,
        first_tag: Option<JinjaTag>,
    ) -> Parse<crate::model::NodeModel> {
        match first_tag {
            Some(t) => tree::jinja_after(s, lang, fm, p, t),
            None => match leaf::jinja_tag(s, p) {
                Ok((t, q)) => if leaf::ahead(s, p, q) {
                    tree::jinja_after(s, lang, fm, q, t)
                } else {
                    Err(leaf::stuck(p))
                },
                Err(e) => Err(e),
            },
        }
    }

    fn parse_jinja_tag_or_block(&mut self, first_tag: Option<JinjaTag>) -> (r: Result<
        Node,
        SyntaxError,
    >)
        requires
            old(self).wf(),
            first_tag matches Some(t) ==> t.sound(old(self).source@),
        ensures
            Self::parses(
                *old(self),
                *final(self),
                r,
                Self::jinja_tag_or_block(
                    old(self).source@,
                    old(self).language,
                    old(self).state.has_astro_front_matter,
                    old(self).pos as int,
                    first_tag,
                ),
            ),
            r matches Ok(n) ==> node_sound(n.model(), old(self).source@, old(self).language),
            r is Ok && first_tag is None ==> old(self).pos < final(self).pos,
        decreases
                old(self).source@.len() - old(self).pos,
                (if first_tag is Some {
                    6int
                } else {
                    0int
                }),
    {
        let ghost want = Self::jinja_tag_or_block(
            self.source@,
            self.language,
            self.state.has_astro_front_matter,
            self.pos as int,
            first_tag,
        );
        let ghost given = first_tag is Some;
        let first = match first_tag {
            Some(t) => t,
            None => self.parse_jinja_tag()?,
        };
        let name_span = parse_jinja_tag_name(self.source, &first);
        let name = name_span.slice(self.source);
        if !opens_jinja_block(name) {
            return Ok(Node::JinjaTag(first));
        }
        let mut body: Vec<JinjaTagOrChildren> = Vec::new();
        proof {
            lemma_jinja_body_push(body@, JinjaTagOrChildren::Tag(first));
        }
        body.push(JinjaTagOrChildren::Tag(first));
        let ghost fm1 = self.state.has_astro_front_matter;
        let ghost base = self.pos as int;
        let ghost body1 = jinja_body_model(body@);
        loop
            invariant_except_break
                tree::jinja_body(self.source@, self.language, fm1, base, first, body1)
                    == tree::jinja_body(
                    self.source@,
                    self.language,
                    self.state.has_astro_front_matter,
                    self.pos as int,
                    first,
                    jinja_body_model(body@),
                ),
            invariant
                Self::follows(*old(self), *self),
                old(self).pos <= base <= self.pos,
                !given ==> old(self).pos < base,
                given == (first_tag is Some),
                want == tree::jinja_block(
                    tree::jinja_body(self.source@, self.language, fm1, base, first, body1),
                ),
                want == Self::jinja_tag_or_block(
                    old(self).source@,
                    old(self).language,
                    old(self).state.has_astro_front_matter,
                    old(self).pos as int,
                    first_tag,
                ),
                first.sound(self.source@),
                name_span == crate::names::jinja_tag_name(self.source@, first),
                name@ == name_span.text(self.source@),
                jinja_body_sound(jinja_body_model(body@), self.source@, self.language),
                body@.len() >= 1,
                jinja_body_model(body@)[0] is Tag,
            ensures
                body@.len() >= 2,
                jinja_body_model(body@).last() is Tag,
                tree::jinja_body(self.source@, self.language, fm1, base, first, body1) == Ok::<
                    (Seq<crate::model::JinjaPart>, int, bool),
                    SyntaxError,
                >(
                    (
                        jinja_body_model(body@),
                        self.pos as int,
                        self.state.has_astro_front_matter,
                    ),
                ),
            decreases self.source@.len() - self.pos,
        {
            let children = self.parse_jinja_block_children()?;
            if children.len() > 0 {
                proof {
                    lemma_jinja_body_push(body@, JinjaTagOrChildren::Children(children));
                }
                body.push(JinjaTagOrChildren::Children(children));
            }
            let next_tag = self.parse_jinja_tag()?;
            let next_name = parse_jinja_tag_name(self.source, &next_tag).slice(self.source);
            if closes_jinja_block(next_name, name) {
                proof {
                    lemma_jinja_body_push(body@, JinjaTagOrChildren::Tag(next_tag));
                }
                body.push(JinjaTagOrChildren::Tag(next_tag));
                break ;
            }
            if is_jinja_branch(name, next_name) {
                proof {
                    lemma_jinja_body_push(body@, JinjaTagOrChildren::Tag(next_tag));
                }
                body.push(JinjaTagOrChildren::Tag(next_tag));
            } else {
                let node = self.parse_jinja_tag_or_block(Some(next_tag))?;
                let mut one: Vec<Node> = Vec::new();
                one.push(node);
                proof {
                    lemma_nodes_one(node);
                    assert(one@ =~= seq![node]);
                    lemma_jinja_body_push(body@, JinjaTagOrChildren::Children(one));
                }
                body.push(JinjaTagOrChildren::Children(one));
            }
        }
        Ok(Node::JinjaBlock(JinjaBlock { body }))
    }

    /// Adds nodes to the body of a Vento block: to its last part, if that
    /// is a run of children, or else as a new run.
    fn append_vento_children(body: &mut Vec<VentoTagOrChildren>, children: Vec<Node>)
        ensures
            vento_body_model(final(body)@) == tree::vento_append(
                vento_body_model(old(body)@),
                nodes_model(children@),
            ),
    {
        let mut children = children;
        let ghost added = children@;
        let ghost before = body@;
        match body.pop() {
            Some(VentoTagOrChildren::Children(nodes)) => {
                let mut nodes = nodes;
                proof {
                    lemma_vento_body_last(before);
                    lemma_nodes_add(nodes@, added);
                }
                nodes.append(&mut children);
                proof {
                    lemma_vento_body_push(body@, VentoTagOrChildren::Children(nodes));
                }
                body.push(VentoTagOrChildren::Children(nodes));
            },
            Some(VentoTagOrChildren::Tag(t)) => {
                proof {
                    lemma_vento_body_last(before);
                    assert(before =~= body@.push(VentoTagOrChildren::Tag(t)));
                    lemma_vento_body_push(before, VentoTagOrChildren::Children(children));
                }
                body.push(VentoTagOrChildren::Tag(t));
                body.push(VentoTagOrChildren::Children(children));
            },
            None => {
                proof {
                    lemma_vento_body_push(before, VentoTagOrChildren::Children(children));
                    assert(vento_body_model(before) =~= Seq::<crate::model::VentoPart>::empty());
                }
                body.push(VentoTagOrChildren::Children(children));
            },
        }
    }

    /// The rule that [`Parser::parse_vento_tag_or_block`] follows from
    /// offset `p`: with a first tag given, what that tag is or starts;
    /// without one, a tag and what it is or starts.
    spec fn vento_tag_or_block(
        s: Seq<u8>,
        lang: Language,
        fm: bool,
        p: int,
        first_tag: Option<Span>,
    ) -> Parse<crate::model::NodeModel> {
        match first_tag {
            Some(t) => tree::vento_after(s, lang, fm, p, t),
            None => match leaf::mustache(s, p) {
                Ok((t, q)) => if leaf::ahead(s, p, q) {
                    tree::vento_after(s, lang, fm, q, t)
                } else {
                    Err(leaf::stuck(p))
                },
                Err(e) => Err(e),
            },
        }
    }

    fn parse_vento_tag_or_block(&mut self, first_tag: Option<Span>) -> (r: Result<
        Node,
        SyntaxError,
    >)
        requires
            old(self).wf(),
            first_tag matches Some(t) ==> t.within(old(self).source@.len()),
        ensures
            Self::parses(
                *old(self),
                *final(self),
                r,
                Self::vento_tag_or_block(
                    old(self).source@,
                    old(self).language,
                    old(self).state.has_astro_front_matter,
                    old(self).pos as int,
                    first_tag,
                ),
            ),
            r matches Ok(n) ==> node_sound(n.model(), old(self).source@, old(self).language),
            r is Ok && first_tag is None ==> old(self).pos < final(self).pos,
        decreases
                old(self).source@.len() - old(self).pos,
                (if first_tag is Some {
                    6int
                } else {
                    0int
                }),
    {
        let ghost want = Self::vento_tag_or_block(
            self.source@,
            self.language,
            self.state.has_astro_front_matter,
            self.pos as int,
            first_tag,
        );
        let ghost given = first_tag is Some;
        let first = match first_tag {
            Some(t) => t,
            None => self.parse_mustache_interpolation()?,
        };
        let text = first.slice(self.source);
        if text.len() >= 2 && text[0] == '#' as u8 && text[text.len() - 1] == '#' as u8 {
            return Ok(
                Node::VentoComment(
                    VentoComment { raw: Span::new(first.start + 1, first.end - 1) },
                ),
            );
        } else if text.len() >= 1 && text[0] == '>' as u8 {
            return Ok(
                Node::VentoEval(VentoEval { raw: Span::new(first.start + 1, first.end) }),
            );
        }
        if !opens_vento_block(self.source, first) {
            let (tag_name, _) = parse_vento_tag(self.source, first);
            return if is_vento_interpolation(tag_name.slice(self.source)) {
                Ok(Node::VentoInterpolation(VentoInterpolation { expr: first }))
            } else {
                Ok(Node::VentoTag(VentoTag { tag: first }))
            };
        }
        let mut body: Vec<VentoTagOrChildren> = Vec::new();
        proof {
            lemma_vento_body_push(body@, VentoTagOrChildren::Tag(VentoTag { tag: first }));
        }
        body.push(VentoTagOrChildren::Tag(VentoTag { tag: first }));
        let ghost fm1 = self.state.has_astro_front_matter;
        let ghost base = self.pos as int;
        let ghost body1 = vento_body_model(body@);
        loop
            invariant_except_break
                tree::vento_body(self.source@, self.language, fm1, base, first, body1)
                    == tree::vento_body(
                    self.source@,
                    self.language,
                    self.state.has_astro_front_matter,
                    self.pos as int,
                    first,
                    vento_body_model(body@),
                ),
            invariant
                Self::follows(*old(self), *self),
                old(self).pos <= base <= self.pos,
                !given ==> old(self).pos < base,
                given == (first_tag is Some),
                want == tree::vento_block(
                    tree::vento_body(self.source@, self.language, fm1, base, first, body1),
                ),
                want == Self::vento_tag_or_block(
                    old(self).source@,
                    old(self).language,
                    old(self).state.has_astro_front_matter,
                    old(self).pos as int,
                    first_tag,
                ),
                first.within(self.source@.len()),
                vento_body_sound(vento_body_model(body@), self.source@, self.language),
                body@.len() >= 1,
                vento_body_model(body@)[0] is Tag,
            ensures
                body@.len() >= 2,
                vento_body_model(body@).last() is Tag,
                tree::vento_body(self.source@, self.language, fm1, base, first, body1) == Ok::<
                    (Seq<crate::model::VentoPart>, int, bool),
                    SyntaxError,
                >(
                    (
                        vento_body_model(body@),
                        self.pos as int,
                        self.state.has_astro_front_matter,
                    ),
                ),
            decreases self.source@.len() - self.pos,
        {
            let children = self.parse_vento_block_children()?;
            if children.len() > 0 {
                Self::append_vento_children(&mut body, children);
            }
            let next_tag = self.parse_mustache_interpolation()?;
            if closes_vento_block(self.source, first, next_tag) {
                proof {
                    lemma_vento_body_push(
                        body@,
                        VentoTagOrChildren::Tag(VentoTag { tag: next_tag }),
                    );
                }
                body.push(VentoTagOrChildren::Tag(VentoTag { tag: next_tag }));
                break ;
            }
            if is_vento_branch(self.source, first, next_tag) {
                proof {
                    lemma_vento_body_push(
                        body@,
                        VentoTagOrChildren::Tag(VentoTag { tag: next_tag }),
                    );
                }
                body.push(VentoTagOrChildren::Tag(VentoTag { tag: next_tag }));
            } else {
                let node = self.parse_vento_tag_or_block(Some(next_tag))?;
                let mut one: Vec<Node> = Vec::new();
                one.push(node);
                proof {
                    lemma_nodes_one(node);
                    assert(one@ =~= seq![node]);
                }
                Self::append_vento_children(&mut body, one);
            }
        }
        Ok(Node::VentoBlock(VentoBlock { body }))
    }

    /// Counts the line feeds from offset `a` up to `b`.
    fn count_line_breaks(&self, a: usize, b: usize) -> (n: u32)
        requires
            self.wf(),
            a <= b <= self.source@.len(),
        ensures
            n == line_breaks(self.source@, a as int, b as int),
    {
        let mut n: u32 = 0;
        let mut i = a;
        while i < b
            invariant
                self.wf(),
                a <= i <= b <= self.source@.len(),
                n == line_breaks(self.source@, a as int, i as int),
                n <= i - a,
            decreases b - i,
        {
            if self.source[i] == '\n' as u8 {
                n = n + 1;
            }
            i = i + 1;
        }
        n
    }

    /// Adds to the parts of an Astro expression the script text from
    /// `start` up to `end`, which stood before markup.
    fn flush_astro_script(&self, children: &mut Vec<AstroExprChild>, start: usize, end: usize)
        requires
            self.wf(),
            start <= end <= self.source@.len(),
        ensures
            astro_parts_model(final(children)@) == tree::astro_flush(
                self.source@,
                astro_parts_model(old(children)@),
                start as int,
                end as int,
            ),
    {
        if start >= end {
            return ;
        }
        let ghost before = children@;
        if run_end_within(self.source, start, end, CharClass::Whitespace) == end {
            match children.pop() {
                Some(AstroExprChild::Template(nodes)) => {
                    let mut nodes = nodes;
                    let text = Node::TextNode(
                        TextNode {
                            raw: Span::new(start, end),
                            line_breaks: self.count_line_breaks(start, end),
                        },
                    );
                    proof {
                        lemma_astro_parts_last(before);
                        lemma_nodes_push(nodes@, text);
                    }
                    nodes.push(text);
                    proof {
                        lemma_astro_parts_push(children@, AstroExprChild::Template(nodes));
                    }
                    children.push(AstroExprChild::Template(nodes));
                },
                Some(AstroExprChild::Script(t)) => {
                    proof {
                        lemma_astro_parts_last(before);
                        assert(before =~= children@.push(AstroExprChild::Script(t)));
                    }
                    children.push(AstroExprChild::Script(t));
                },
                None => {
                    proof {
                        assert(before =~= children@);
                        lemma_astro_parts_push(before, AstroExprChild::Script(Span { start, end }));
                    }
                },
            }
        } else {
            proof {
                lemma_astro_parts_push(children@, AstroExprChild::Script(Span { start, end }));
            }
            children.push(AstroExprChild::Script(Span::new(start, end)));
        }
    }

    /// Adds a node to the parts of an Astro expression: to its last part,
    /// if that is a template, or else as a new template.
    fn append_astro_node(children: &mut Vec<AstroExprChild>, node: Node)
        ensures
            astro_parts_model(final(children)@) == tree::astro_append(
                astro_parts_model(old(children)@),
                node.model(),
            ),
    {
        let ghost before = children@;
        match children.pop() {
            Some(AstroExprChild::Template(nodes)) => {
                let mut nodes = nodes;
                proof {
                    lemma_astro_parts_last(before);
                    lemma_nodes_push(nodes@, node);
                }
                nodes.push(node);
                proof {
                    lemma_astro_parts_push(children@, AstroExprChild::Template(nodes));
                }
                children.push(AstroExprChild::Template(nodes));
            },
            Some(AstroExprChild::Script(t)) => {
                let mut one: Vec<Node> = Vec::new();
                one.push(node);
                proof {
                    lemma_astro_parts_last(before);
                    assert(before =~= children@.push(AstroExprChild::Script(t)));
                    lemma_nodes_one(node);
                    assert(one@ =~= seq![node]);
                    lemma_astro_parts_push(before, AstroExprChild::Template(one));
                }
                children.push(AstroExprChild::Script(t));
                children.push(AstroExprChild::Template(one));
            },
            None => {
                let mut one: Vec<Node> = Vec::new();
                one.push(node);
                proof {
                    assert(before =~= children@);
                    lemma_nodes_one(node);
                    assert(one@ =~= seq![node]);
                    lemma_astro_parts_push(before, AstroExprChild::Template(one));
                }
                children.push(AstroExprChild::Template(one));
            },
        }
    }

    fn parse_astro_expr(&mut self) -> (r: Result<AstroExpr, SyntaxError>)
        requires
            old(self).wf(),
        ensures
            Self::parses(
                *old(self),
                *final(self),
                r,
                tree::astro_expr(
                    old(self).source@,
                    old(self).language,
                    old(self).state.has_astro_front_matter,
                    old(self).pos as int,
                ),
            ),
            r matches Ok(e) ==> old(self).pos < final(self).pos && astro_parts_sound(
                e.model(),
                old(self).source@,
                old(self).language,
            ) && alternates(e.model()),
            r matches Ok(e) ==> well_parted(old(self).source@, e.model()),
        decreases old(self).source@.len() - old(self).pos, 0int,
    {
        proof {
            crate::laws::lemma_astro_expr_well_parted(
                self.source@,
                self.language,
                self.state.has_astro_front_matter,
                self.pos as int,
            );
        }
        if !self.eat('{' as u8) {
            return Err(self.emit_error(SyntaxErrorKind::ExpectAstroExpr));
        }
        let mut children: Vec<AstroExprChild> = Vec::new();
        let mut braces_stack: usize = 0;
        let mut pos = self.pos;
        let ghost fm1 = self.state.has_astro_front_matter;
        let ghost base = self.pos as int;
        proof {
            lemma_astro_parts_push(children@, AstroExprChild::Script(Span { start: 0, end: 0 }));
        }
        loop
            invariant_except_break
                tree::astro_body(
                    self.source@,
                    self.language,
                    fm1,
                    base,
                    0,
                    base,
                    Seq::empty(),
                ) == tree::astro_body(
                    self.source@,
                    self.language,
                    self.state.has_astro_front_matter,
                    self.pos as int,
                    braces_stack as nat,
                    pos as int,
                    astro_parts_model(children@),
                ),
                astro_parts_model(children@).len() > 0 ==> astro_parts_model(
                    children@,
                ).last() is Template,
            invariant
                Self::follows(*old(self), *self),
                old(self).pos < base <= self.pos,
                base <= pos <= self.pos,
                tree::astro_expr(
                    old(self).source@,
                    old(self).language,
                    old(self).state.has_astro_front_matter,
                    old(self).pos as int,
                ) == tree::astro_body(
                    self.source@,
                    self.language,
                    fm1,
                    base,
                    0,
                    base,
                    Seq::empty(),
                ),
                braces_stack <= self.pos - base,
                astro_parts_sound(astro_parts_model(children@), self.source@, self.language),
                alternates(astro_parts_model(children@)),
            ensures
                tree::astro_body(self.source@, self.language, fm1, base, 0, base, Seq::empty())
                    == Ok::<(Seq<crate::model::AstroPart>, int, bool), SyntaxError>(
                    (
                        astro_parts_model(children@),
                        self.pos as int,
                        self.state.has_astro_front_matter,
                    ),
                ),
            decreases self.source@.len() - self.pos,
        {
            match self.peek() {
                None => {
                    break ;
                },
                Some(c) => {
                    if c == '{' as u8 {
                        braces_stack = braces_stack + 1;
                        self.pos = self.pos + 1;
                    } else if c == '}' as u8 {
                        let i = self.pos;
                        self.pos = self.pos + 1;
                        if braces_stack == 0 {
                            proof {
                                lemma_astro_parts_push(
                                    children@,
                                    AstroExprChild::Script(Span { start: pos, end: i }),
                                );
                                lemma_astro_script(
                                    astro_parts_model(children@),
                                    Span { start: pos, end: i },
                                    self.source@,
                                    self.language,
                                );
                            }
                            children.push(AstroExprChild::Script(Span::new(pos, i)));
                            break ;
                        }
                        braces_stack = braces_stack - 1;
                    } else if c == '<' as u8 && (self.class_is_at(1, CharClass::TagName)
                        || self.is_at(1, '!' as u8) || self.is_at(1, '>' as u8)) {
                        let i = self.pos;
                        let node = self.parse_node()?;
                        proof {
                            lemma_astro_flush(
                                astro_parts_model(children@),
                                pos as int,
                                i as int,
                                self.source@,
                                self.language,
                            );
                        }
                        self.flush_astro_script(&mut children, pos, i);
                        proof {
                            lemma_astro_append(
                                astro_parts_model(children@),
                                node.model(),
                                self.source@,
                                self.language,
                            );
                        }
                        Self::append_astro_node(&mut children, node);
                        pos = self.pos;
                    } else {
                        self.pos = self.pos + 1;
                    }
                },
            }
        }
        Ok(AstroExpr { children })
    }
}

} // verus!

//! The parser: builds the lossless syntax tree of a source text.

use crate::grammar::{Cursor, Input};
use crate::lexer::{lemma_lexemes, lex, lexemes, Lexeme};
use crate::report::{ErrorCode, ModuleID, Note, Report, ReportKind};
use crate::syntax::{
    element_view, elements_view, lemma_node_view, SyntaxElement, SyntaxNode, SyntaxToken, Tree,
};
use crate::token::Token;
use vstd::prelude::*;
use vstd::string::StringSliceAdditionalSpecFns;
use vstd::utf8::{encode_utf8, is_char_boundary, valid_utf8};

verus! {

/// The parser's cursor: the index of the current lexeme, the children
/// gathered for the node being filled, and the diagnostics so far.
struct State {
    pos: usize,
    elems: Vec<SyntaxElement>,
    errors: Vec<Report>,
    /// Offset in the source at which the text of `elems` starts.
    origin: Ghost<int>,
}

impl View for State {
    type V = Cursor;

    closed spec fn view(&self) -> Cursor {
        Cursor { pos: self.pos as int, elems: elements_view(self.elems@), errors: self.errors@ }
    }
}

impl State {
    /// The children gathered so far hold exactly the text of the source
    /// from `origin` up to the current lexeme.
    closed spec fn wf(&self, inp: Input) -> bool {
        &&& 0 <= self.pos <= inp.len()
        &&& 0 <= self.origin@ <= inp.offset(self.pos as int)
        &&& Tree::text_of(self@.elems) == inp.source.subrange(
            self.origin@,
            inp.offset(self.pos as int),
        )
    }
}

/// A parser over one source text.
pub struct Parser<'a> {
    source: &'a str,
    lexemes: Vec<Lexeme>,
    module_id: ModuleID,
}

proof fn lemma_subrange_concat(s: Seq<u8>, a: int, b: int, c: int)
    requires
        0 <= a <= b <= c <= s.len(),
    ensures
        s.subrange(a, b) + s.subrange(b, c) == s.subrange(a, c),
{
    assert(s.subrange(a, b) + s.subrange(b, c) =~= s.subrange(a, c));
}

proof fn lemma_elements_push(es: Seq<SyntaxElement>, e: SyntaxElement)
    ensures
        elements_view(es.push(e)) == elements_view(es).push(element_view(e)),
{
    assert(elements_view(es.push(e)) =~= elements_view(es).push(element_view(e)));
}

/// A prefix of a text in UTF-8 that ends between two characters is itself
/// in UTF-8, and what is between two characters in the text is so in the
/// prefix.
proof fn lemma_prefix_boundary(s: Seq<u8>, start: int, end: int)
    requires
        valid_utf8(s),
        0 <= start <= end <= s.len(),
        is_char_boundary(s, start),
        is_char_boundary(s, end),
    ensures
        valid_utf8(s.subrange(0, end)),
        is_char_boundary(s.subrange(0, end), start),
{
    let head = s.subrange(0, end);
    vstd::utf8::valid_utf8_split(s, end);
    vstd::utf8::is_char_boundary_start_end_of_seq(head);
    if start < end {
        vstd::utf8::is_char_boundary_iff_not_is_continuation_byte(head, start);
        vstd::utf8::is_char_boundary_iff_not_is_continuation_byte(s, start);
        assert(head[start] == s[start]);
    }
}

impl<'a> Parser<'a> {
    /// What the parser reads, as the grammar sees it.
    pub closed spec fn input(&self) -> Input {
        Input {
            source: self.source.spec_bytes(),
            lexemes: self.lexemes@,
            module: self.module_id,
        }
    }

    /// The source that the parser was made for.
    pub closed spec fn source(&self) -> &'a str {
        self.source
    }

    /// The module that the parser was made for.
    pub closed spec fn module(&self) -> ModuleID {
        self.module_id
    }

    #[verifier::type_invariant]
    spec fn inv(&self) -> bool {
        &&& self.lexemes@ == lexemes(self.source.spec_bytes())
        &&& self.source.spec_bytes().len() <= usize::MAX
    }

    proof fn lemma_input_wf(&self)
        requires
            self.inv(),
        ensures
            self.input().wf(),
    {
        vstd::utf8::encode_utf8_valid_utf8(self.source@);
        lemma_lexemes(self.source.spec_bytes());
    }

    /// A parser for `source`, the text of module `module_id`.
    pub fn new(source: &'a str, module_id: ModuleID) -> (r: Self)
        ensures
            r.source() == source,
            r.module() == module_id,
            r.input() == (Input {
                source: source.spec_bytes(),
                lexemes: lexemes(source.spec_bytes()),
                module: module_id,
            }),
    {
        let _ = source.as_bytes().len();
        Parser { source, lexemes: lex(source), module_id }
    }

    fn kind(&self, pos: usize) -> (r: Token)
        ensures
            r == self.input().kind(pos as int),
    {
        if pos < self.lexemes.len() {
            self.lexemes[pos].kind
        } else {
            Token::EOF
        }
    }

    /// The text of the source between two offsets.
    fn text(&self, start: usize, end: usize) -> (r: String)
        requires
            start <= end <= self.source.spec_bytes().len(),
            is_char_boundary(self.source.spec_bytes(), start as int),
            is_char_boundary(self.source.spec_bytes(), end as int),
        ensures
            encode_utf8(r@) == self.source.spec_bytes().subrange(start as int, end as int),
    {
        proof {
            vstd::utf8::encode_utf8_valid_utf8(self.source@);
            lemma_prefix_boundary(self.source.spec_bytes(), start as int, end as int);
        }
        let (head, _) = self.source.split_at(end);
        let (_, tail) = head.split_at(start);
        assert(tail.spec_bytes() =~= self.source.spec_bytes().subrange(start as int, end as int));
        tail.to_owned()
    }

    fn unexpected(&self, pos: usize, expected: Option<Token>) -> (r: Report)
        requires
            self.inv(),
            pos <= self.lexemes@.len(),
        ensures
            r == self.input().unexpected(pos as int, expected),
    {
        let n = self.source.len();
        let (start, end) = if pos < self.lexemes.len() {
            (self.lexemes[pos].start, self.lexemes[pos].end)
        } else {
            (n, n)
        };
        Report {
            kind: ReportKind::Error,
            code: ErrorCode::UnexpectedToken,
            module: self.module_id,
            offset: start,
            label: Some((start, end)),
            expected,
            wanted: None,
            note: Note::Absent,
        }
    }

    fn bump(&self, st: State) -> (r: State)
        requires
            self.inv(),
            st.wf(self.input()),
        ensures
            r@ == self.input().bump(st@),
            r.wf(self.input()),
            r.origin == st.origin,
            r.pos >= st.pos,
            st.pos < self.input().len() ==> r.pos == st.pos + 1,
    {
        let ghost inp = self.input();
        let ghost c = st@;
        let mut st = st;
        proof {
            self.lemma_input_wf();
            inp.lemma_offset_mono(st.pos as int, st.pos as int + 1);
        }
        let leaf = if st.pos < self.lexemes.len() {
            let l = self.lexemes[st.pos];
            proof {
                inp.lemma_boundaries(st.pos as int);
                inp.lemma_offset_next(st.pos as int);
            }
            let text = self.text(l.start, l.end);
            SyntaxToken { kind: l.kind, start: l.start, end: l.end, text }
        } else {
            let n = self.source.len();
            let text = String::new();
            assert(encode_utf8(text@) =~= Seq::<u8>::empty());
            SyntaxToken { kind: Token::EOF, start: n, end: n, text }
        };
        assert(leaf@ == inp.leaf(st.pos as int));
        proof {
            lemma_elements_push(st.elems@, SyntaxElement::Token(leaf));
            Tree::lemma_text_of_push(c.elems, leaf@);
            if st.pos < inp.len() {
                lemma_subrange_concat(
                    inp.source,
                    st.origin@,
                    inp.offset(st.pos as int),
                    inp.offset(st.pos as int + 1),
                );
            } else {
                assert(Tree::text_of(c.elems) + Seq::<u8>::empty() =~= Tree::text_of(c.elems));
            }
        }
        st.elems.push(SyntaxElement::Token(leaf));
        if st.pos < self.lexemes.len() {
            st.pos = st.pos + 1;
        }
        st
    }

    fn eat_ws(&self, st: State) -> (r: State)
        requires
            self.inv(),
            st.wf(self.input()),
        ensures
            r@ == self.input().eat_ws(st@),
            r.wf(self.input()),
            r.origin == st.origin,
            r.pos >= st.pos,
    {
        let ghost inp = self.input();
        let ghost c = st@;
        let o = st.origin;
        let mut st = st;
        assert(c.elems + inp.leaves(c.pos, c.pos) =~= c.elems);
        while st.pos < self.lexemes.len() && self.lexemes[st.pos].kind.is_trivia()
            invariant
                self.inv(),
                inp == self.input(),
                st.wf(inp),
                st.origin == o,
                c.pos <= st.pos <= inp.len(),
                inp.trivia_end(st.pos as int) == inp.trivia_end(c.pos),
                st@.elems == c.elems + inp.leaves(c.pos, st.pos as int),
                st@.errors == c.errors,
            decreases inp.len() - st.pos,
        {
            let ghost before = st@;
            st = self.bump(st);
            assert(before.elems.push(inp.leaf(before.pos)) =~= c.elems + inp.leaves(
                c.pos,
                before.pos + 1,
            ));
        }
        st
    }

    fn complain(&self, st: State, expected: Option<Token>) -> (r: State)
        requires
            self.inv(),
            st.wf(self.input()),
        ensures
            r@ == self.input().complain(st@, expected),
            r.wf(self.input()),
            r.origin == st.origin,
            r.pos == st.pos,
            r.elems@.len() == st.elems@.len(),
    {
        let mut st = st;
        let report = self.unexpected(st.pos, expected);
        st.errors.push(report);
        st
    }

    fn expect(&self, st: State, kind: Token) -> (r: State)
        requires
            self.inv(),
            st.wf(self.input()),
        ensures
            r@ == self.input().expect(st@, kind),
            r.wf(self.input()),
            r.origin == st.origin,
            r.pos >= st.pos,
            st.pos < self.input().len() && self.input().kind(st.pos as int) != kind ==> r.pos
                > st.pos,
    {
        let ghost inp = self.input();
        let ghost c = st@;
        let o = st.origin;
        let first = st.pos;
        if self.kind(first) == kind {
            return st;
        }
        if first >= self.lexemes.len() {
            return self.complain(st, Some(kind));
        }
        let (outer, skipped) = self.open(st);
        let mut skipped = skipped;
        let so = skipped.origin;
        assert(skipped@.elems =~= inp.leaves(c.pos, c.pos));
        while skipped.pos < self.lexemes.len() && self.lexemes[skipped.pos].kind != kind
            invariant
                self.inv(),
                inp == self.input(),
                skipped.wf(inp),
                skipped.origin == so,
                c.pos <= skipped.pos <= inp.len(),
                inp.find(skipped.pos as int, kind) == inp.find(c.pos, kind),
                skipped@.elems == inp.leaves(c.pos, skipped.pos as int),
                skipped@.errors == c.errors,
            decreases inp.len() - skipped.pos,
        {
            let ghost before = skipped@;
            skipped = self.bump(skipped);
            assert(before.elems.push(inp.leaf(before.pos)) =~= inp.leaves(c.pos, before.pos + 1));
        }
        let mut r = self.close(outer, Token::Error, skipped, o);
        let report = self.unexpected(first, Some(kind));
        r.errors.push(report);
        r
    }

    /// Takes the current lexeme as the closing token `kind`.
    fn close_with(&self, st: State, kind: Token) -> (r: State)
        requires
            self.inv(),
            st.wf(self.input()),
        ensures
            r@ == self.input().close_with(st@, kind),
            r.wf(self.input()),
            r.origin == st.origin,
            r.pos >= st.pos,
            st.pos < self.input().len() ==> r.pos == st.pos + 1,
    {
        if self.kind(st.pos) != kind {
            self.bump(self.complain(st, Some(kind)))
        } else {
            self.bump(st)
        }
    }

    /// Before the opening token `kind`: a lexeme of another kind gets a
    /// diagnostic.
    fn open_with(&self, st: State, kind: Token) -> (r: State)
        requires
            self.inv(),
            st.wf(self.input()),
        ensures
            r@ == self.input().open_with(st@, kind),
            r.wf(self.input()),
            r.origin == st.origin,
            r.pos == st.pos,
            r.elems@.len() == st.elems@.len(),
    {
        if st.pos < self.lexemes.len() && self.kind(st.pos) != kind {
            self.complain(st, Some(kind))
        } else {
            st
        }
    }

    /// Starts a node: hands back the children of the enclosing node, and a
    /// cursor for the new node, which has no children yet.
    fn open(&self, st: State) -> (r: (Vec<SyntaxElement>, State))
        requires
            self.inv(),
            st.wf(self.input()),
        ensures
            elements_view(r.0@) == st@.elems,
            r.1@ == self.input().open(st@),
            r.1.wf(self.input()),
            r.1.pos == st.pos,
            st.origin@ <= r.1.origin@,
            Tree::text_of(st@.elems) == self.input().source.subrange(st.origin@, r.1.origin@),
    {
        let ghost inp = self.input();
        proof {
            self.lemma_input_wf();
            inp.lemma_offset_mono(st.pos as int, st.pos as int);
        }
        let inner = State {
            pos: st.pos,
            elems: Vec::new(),
            errors: st.errors,
            origin: Ghost(inp.offset(st.pos as int)),
        };
        assert(inner@.elems =~= Seq::<Tree>::empty());
        assert(inp.source.subrange(inner.origin@, inner.origin@) =~= Seq::<u8>::empty());
        (st.elems, inner)
    }

    /// Starts a node that wraps the children from index `from` on: hands
    /// back the children before `from`, and a cursor for the new node, which
    /// holds the children from `from` on.
    fn open_at(&self, st: State, from: usize) -> (r: (Vec<SyntaxElement>, State))
        requires
            self.inv(),
            st.wf(self.input()),
            from <= st.elems@.len(),
        ensures
            elements_view(r.0@) == st@.elems.subrange(0, from as int),
            r.1@ == self.input().open_at(st@, from as int),
            r.1.wf(self.input()),
            r.1.pos == st.pos,
            st.origin@ <= r.1.origin@,
            Tree::text_of(elements_view(r.0@)) == self.input().source.subrange(
                st.origin@,
                r.1.origin@,
            ),
    {
        let ghost inp = self.input();
        let ghost c = st@;
        let ghost o = st.origin@;
        let ghost end = inp.offset(st.pos as int);
        proof {
            self.lemma_input_wf();
            inp.lemma_offset_mono(st.pos as int, st.pos as int);
        }
        assert(0 <= o <= end <= inp.source.len());
        assert(Tree::text_of(c.elems) == inp.source.subrange(o, end));
        let mut st = st;
        let tail = st.elems.split_off(from);
        let ghost outer = elements_view(st.elems@);
        let ghost inner = elements_view(tail@);
        let ghost n = Tree::text_of(outer).len() as int;
        proof {
            assert(outer =~= c.elems.subrange(0, from as int));
            assert(inner =~= c.elems.subrange(from as int, c.elems.len() as int));
            assert(outer + inner =~= c.elems);
            Tree::lemma_text_of_concat(outer, inner);
            let whole = inp.source.subrange(o, end);
            assert(whole == Tree::text_of(outer) + Tree::text_of(inner));
            assert(whole.len() == end - o);
            assert(n <= end - o);
            assert forall|k: int| 0 <= k < n implies Tree::text_of(outer)[k] == inp.source[o
                + k] by {
                assert(whole[k] == Tree::text_of(outer)[k]);
            }
            assert(Tree::text_of(outer) =~= inp.source.subrange(o, o + n));
            assert forall|k: int| 0 <= k < end - o - n implies Tree::text_of(inner)[k]
                == inp.source[o + n + k] by {
                assert(whole[n + k] == Tree::text_of(inner)[k]);
            }
            assert(Tree::text_of(inner) =~= inp.source.subrange(o + n, end));
        }
        let r = State { pos: st.pos, elems: tail, errors: st.errors, origin: Ghost(o + n) };
        (st.elems, r)
    }

    /// Closes the node of kind `kind` that `inner` has filled, and adds it
    /// to the children `outer` of the enclosing node.
    fn close(&self, outer: Vec<SyntaxElement>, kind: Token, inner: State, Ghost(o): Ghost<int>) -> (r:
        State)
        requires
            self.inv(),
            inner.wf(self.input()),
            0 <= o <= inner.origin@,
            Tree::text_of(elements_view(outer@)) == self.input().source.subrange(
                o,
                inner.origin@,
            ),
        ensures
            r@ == self.input().close(elements_view(outer@), kind, inner@),
            r.wf(self.input()),
            r.origin@ == o,
            r.pos == inner.pos,
    {
        let ghost inp = self.input();
        let ghost before = elements_view(outer@);
        let mut outer = outer;
        let node = SyntaxNode::new(kind, inner.elems);
        proof {
            self.lemma_input_wf();
            inp.lemma_offset_mono(inner.pos as int, inner.pos as int);
            lemma_elements_push(outer@, SyntaxElement::Node(node));
            Tree::lemma_text_of_push(before, node@);
            lemma_subrange_concat(inp.source, o, inner.origin@, inp.offset(inner.pos as int));
        }
        outer.push(SyntaxElement::Node(node));
        State { pos: inner.pos, elems: outer, errors: inner.errors, origin: Ghost(o) }
    }

    fn leaf_node(&self, st: State, kind: Token) -> (r: State)
        requires
            self.inv(),
            st.wf(self.input()),
        ensures
            r@ == self.input().leaf_node(st@, kind),
            r.wf(self.input()),
            r.origin == st.origin,
            r.pos >= st.pos,
            st.pos < self.input().len() ==> r.pos == st.pos + 1,
            r.elems@.len() == st.elems@.len() + 1,
    {
        let ghost o = st.origin@;
        let (outer, inner) = self.open(st);
        let inner = self.bump(inner);
        self.close(outer, kind, inner, Ghost(o))
    }

    /// [`Self::open`], then the current lexeme and whitespace.
    fn enter(&self, st: State) -> (r: (Vec<SyntaxElement>, State))
        requires
            self.inv(),
            st.wf(self.input()),
        ensures
            elements_view(r.0@) == st@.elems,
            r.1@ == self.input().enter(st@),
            r.1.wf(self.input()),
            r.1.pos >= st.pos,
            st.pos < self.input().len() ==> r.1.pos > st.pos,
            st.origin@ <= r.1.origin@,
            Tree::text_of(st@.elems) == self.input().source.subrange(st.origin@, r.1.origin@),
    {
        let (outer, inner) = self.open(st);
        let inner = self.eat_ws(self.bump(inner));
        (outer, inner)
    }

    /// [`Self::open_at`], then the current lexeme and whitespace.
    fn enter_at(&self, st: State, from: usize) -> (r: (Vec<SyntaxElement>, State))
        requires
            self.inv(),
            st.wf(self.input()),
            from <= st.elems@.len(),
        ensures
            elements_view(r.0@) == st@.elems.subrange(0, from as int),
            r.0@.len() == from,
            r.1@ == self.input().enter_at(st@, from as int),
            r.1.wf(self.input()),
            r.1.pos >= st.pos,
            st.pos < self.input().len() ==> r.1.pos > st.pos,
            st.origin@ <= r.1.origin@,
            Tree::text_of(elements_view(r.0@)) == self.input().source.subrange(
                st.origin@,
                r.1.origin@,
            ),
    {
        let (outer, inner) = self.open_at(st, from);
        let inner = self.eat_ws(self.bump(inner));
        (outer, inner)
    }

    fn separator(&self, st: State, sep: Token, close: Token) -> (r: State)
        requires
            self.inv(),
            st.wf(self.input()),
        ensures
            r@ == self.input().separator(st@, sep, close),
            r.wf(self.input()),
            r.origin == st.origin,
            r.pos >= st.pos,
            st.pos < self.input().len() && self.input().kind(st.pos as int) != close ==> r.pos
                > st.pos,
    {
        if self.kind(st.pos) == sep {
            self.eat_ws(self.bump(st))
        } else {
            self.expect(st, close)
        }
    }

    fn field_def(&self, st: State) -> (r: State)
        requires
            self.inv(),
            st.wf(self.input()),
        ensures
            r@ == self.input().field_def(st@),
            r.wf(self.input()),
            r.origin == st.origin,
            r.pos >= st.pos,
            st.pos < self.input().len() ==> r.pos > st.pos,
        decreases self.input().len() - st.pos, 1int,
    {
        let o = st.origin;
        if st.pos >= self.lexemes.len() {
            let (outer, inner) = self.enter(st);
            return self.close(outer, Token::FieldType, inner, o);
        }
        let ghost lo = st.pos + 1;
        let st = self.expect(st, Token::IDENT);
        let (outer, a) = self.enter(st);
        let inner = if self.kind(a.pos) != Token::COLON {
            a
        } else {
            let b = self.eat_ws(self.bump(a));
            if self.kind(b.pos) == Token::IDENT {
                self.leaf_node(b, Token::Literal)
            } else if self.kind(b.pos) == Token::LBRACE {
                self.struct_def(b)
            } else {
                b
            }
        };
        self.close(outer, Token::FieldType, inner, o)
    }

    fn struct_def(&self, st: State) -> (r: State)
        requires
            self.inv(),
            st.wf(self.input()),
        ensures
            r@ == self.input().struct_def(st@),
            r.wf(self.input()),
            r.origin == st.origin,
            r.pos >= st.pos,
        decreases self.input().len() - st.pos, 0int,
    {
        let o = st.origin;
        let at_end = st.pos >= self.lexemes.len();
        let (outer, a) = self.enter(st);
        let b = if !at_end {
            self.struct_def_fields(a)
        } else {
            a
        };
        self.close(outer, Token::StructType, self.close_with(b, Token::RBRACE), o)
    }

    fn struct_def_fields(&self, start: State) -> (r: State)
        requires
            self.inv(),
            start.wf(self.input()),
        ensures
            r@ == self.input().struct_def_fields(start@),
            r.wf(self.input()),
            r.origin == start.origin,
            r.pos >= start.pos,
        decreases self.input().len() - start.pos, 2int,
    {
        let ghost inp = self.input();
        let ghost init = start@;
        let o = start.origin;
        let mut st = start;
        while st.pos < self.lexemes.len() && self.kind(st.pos) != Token::RBRACE && self.kind(
            st.pos,
        ) != Token::EOF
            invariant
                self.inv(),
                inp == self.input(),
                st.wf(inp),
                st.origin == o,
                st.pos >= init.pos,
                init.pos == start.pos,
                inp.struct_def_fields(st@) == inp.struct_def_fields(init),
            decreases inp.len() - st.pos,
        {
            let a = self.eat_ws(self.field_def(st));
            st = self.separator(a, Token::COMMA, Token::RBRACE);
        }
        st
    }

    #[verifier::rlimit(100)]
    fn expr(&self, st: State, min_bp: u8) -> (r: (State, bool))
        requires
            self.inv(),
            st.wf(self.input()),
        ensures
            (r.0@, r.1) == self.input().expr(st@, min_bp),
            r.0.wf(self.input()),
            r.0.origin == st.origin,
            r.0.pos >= st.pos,
            r.1 ==> r.0.pos > st.pos,
        decreases self.input().len() - st.pos, 3int,
    {
        let ghost inp = self.input();
        let ghost c = st@;
        let o = st.origin;
        let k = self.kind(st.pos);
        let from = st.elems.len();
        let (p, block) = if k == Token::NUMBER {
            (self.leaf_node(st, Token::Literal), false)
        } else if k == Token::IDENT {
            let a = self.eat_ws(self.leaf_node(st, Token::Literal));
            if self.kind(a.pos) == Token::LBRACE {
                assert(a@.elems.subrange(0, from as int) =~= c.elems);
                let (outer, inner) = self.enter_at(a, from);
                let b = self.struct_fields(inner);
                (self.close(outer, Token::Struct, self.close_with(b, Token::RBRACE), o), false)
            } else {
                (a, false)
            }
        } else if k == Token::QUERY {
            (self.query(st), true)
        } else if k == Token::LPAREN {
            let (outer, inner) = self.enter(st);
            let (a, _) = self.expr(inner, 0);
            let b = self.bump(self.expect(a, Token::RPAREN));
            (self.close(outer, Token::Paren, b, o), false)
        } else if k == Token::LBRACE {
            (self.block(st), true)
        } else if k == Token::DEL {
            let (outer, inner) = self.enter(st);
            let (a, _) = self.expr(inner, 0);
            (self.close(outer, Token::Del, a, o), false)
        } else if k == Token::IF {
            let (outer, inner) = self.enter(st);
            let (a, _) = self.expr(inner, 0);
            let a = self.eat_ws(a);
            let b = self.eat_ws(self.block(a));
            let d = if self.kind(b.pos) == Token::ELSE {
                self.block(self.eat_ws(self.bump(b)))
            } else {
                b
            };
            (self.close(outer, Token::If, d, o), true)
        } else if k == Token::WHILE {
            let (outer, inner) = self.enter(st);
            let (a, _) = self.expr(inner, 0);
            let a = self.eat_ws(a);
            let b = self.block(a);
            (self.close(outer, Token::While, b, o), true)
        } else if k == Token::LET {
            let (outer, inner) = self.enter(st);
            let (a, _) = self.expr(inner, 3);
            let b = self.eat_ws(self.bump(self.expect(a, Token::EQ)));
            let (d, _) = self.expr(b, 0);
            (self.close(outer, Token::Let, d, o), false)
        } else if k == Token::LBRACKET {
            let (outer, inner) = self.enter(st);
            let (a, _) = self.expr(inner, 0);
            let b = self.bump(self.expect(a, Token::RBRACKET));
            (self.close(outer, Token::ResourceAccess, b, o), false)
        } else {
            match k.prefix_binding_power() {
                Some(bp) => {
                    let (outer, inner) = self.enter(st);
                    let (a, _) = self.expr(inner, bp);
                    (self.close(outer, Token::Prefix, a, o), false)
                },
                None => {
                    let mut st = st;
                    let report = self.unexpected(st.pos, None);
                    st.errors.push(report);
                    (st, false)
                },
            }
        };
        self.infix(p, from, min_bp, block, Ghost(c.pos))
    }

    fn infix(&self, start: State, from: usize, min_bp: u8, is_block: bool, Ghost(lo): Ghost<int>) -> (r: (
        State,
        bool,
    ))
        requires
            self.inv(),
            start.wf(self.input()),
            from <= start.elems@.len(),
            0 <= lo <= start.pos,
            is_block ==> lo < start.pos,
        ensures
            (r.0@, r.1) == self.input().infix(start@, from as int, min_bp, is_block),
            r.0.wf(self.input()),
            r.0.origin == start.origin,
            r.0.pos >= start.pos,
            r.1 ==> r.0.pos > lo,
        decreases self.input().len() - start.pos, 2int,
    {
        let ghost inp = self.input();
        let ghost init = start@;
        let o = start.origin;
        let mut st = start;
        let mut block = is_block;
        loop
            invariant
                self.inv(),
                inp == self.input(),
                st.wf(inp),
                st.origin == o,
                st.pos >= init.pos,
                init == start@,
                o == start.origin,
                0 <= lo <= st.pos,
                from <= st.elems@.len(),
                block ==> lo < st.pos,
                inp.infix(st@, from as int, min_bp, block) == inp.infix(
                    init,
                    from as int,
                    min_bp,
                    is_block,
                ),
            decreases inp.len() - st.pos,
        {
            let a = self.eat_ws(st);
            let k = self.kind(a.pos);
            let (l_bp, r_bp) = match k.infix_binding_power() {
                Some(bp) => bp,
                None => {
                    return (a, block);
                },
            };
            if l_bp < min_bp {
                return (a, block);
            }
            let (outer, inner) = self.enter_at(a, from);
            let wrapped = if k == Token::LBRACKET {
                let (b, _) = self.expr(inner, 0);
                self.close(
                    outer,
                    Token::ComponentAccess,
                    self.bump(self.expect(b, Token::RBRACKET)),
                    o,
                )
            } else if k == Token::LPAREN {
                let b = self.call_args(inner);
                self.close(outer, Token::Call, self.close_with(b, Token::RPAREN), o)
            } else {
                let (b, _) = self.expr(inner, r_bp);
                self.close(outer, Token::Infix, b, o)
            };
            st = wrapped;
            block = false;
        }
    }

    fn call_args(&self, start: State) -> (r: State)
        requires
            self.inv(),
            start.wf(self.input()),
        ensures
            r@ == self.input().call_args(start@),
            r.wf(self.input()),
            r.origin == start.origin,
            r.pos >= start.pos,
        decreases self.input().len() - start.pos, 4int,
    {
        let ghost inp = self.input();
        let ghost init = start@;
        let o = start.origin;
        let mut st = start;
        while st.pos < self.lexemes.len() && self.kind(st.pos) != Token::RPAREN && self.kind(
            st.pos,
        ) != Token::EOF
            invariant
                self.inv(),
                inp == self.input(),
                st.wf(inp),
                st.origin == o,
                st.pos >= init.pos,
                init.pos == start.pos,
                inp.call_args(st@) == inp.call_args(init),
            decreases inp.len() - st.pos,
        {
            let (p, _) = self.expr(st, 0);
            let a = self.eat_ws(p);
            st = self.separator(a, Token::COMMA, Token::RPAREN);
        }
        st
    }

    fn struct_fields(&self, start: State) -> (r: State)
        requires
            self.inv(),
            start.wf(self.input()),
        ensures
            r@ == self.input().struct_fields(start@),
            r.wf(self.input()),
            r.origin == start.origin,
            r.pos >= start.pos,
        decreases self.input().len() - start.pos, 4int,
    {
        let ghost inp = self.input();
        let ghost init = start@;
        let o = start.origin;
        let mut st = start;
        while st.pos < self.lexemes.len() && self.kind(st.pos) != Token::RBRACE && self.kind(
            st.pos,
        ) != Token::EOF
            invariant
                self.inv(),
                inp == self.input(),
                st.wf(inp),
                st.origin == o,
                st.pos >= init.pos,
                init.pos == start.pos,
                inp.struct_fields(st@) == inp.struct_fields(init),
            decreases inp.len() - st.pos,
        {
            let ghost before = st.pos;
            let a = self.expect(st, Token::IDENT);
            let a = self.eat_ws(self.bump(a));
            assert(a.pos > before);
            let b = self.eat_ws(self.bump(self.expect(a, Token::COLON)));
            let (d, _) = self.expr(b, 0);
            st = self.separator(d, Token::COMMA, Token::RBRACE);
        }
        st
    }

    fn block(&self, st: State) -> (r: State)
        requires
            self.inv(),
            st.wf(self.input()),
        ensures
            r@ == self.input().block(st@),
            r.wf(self.input()),
            r.origin == st.origin,
            r.pos >= st.pos,
            st.pos < self.input().len() ==> r.pos > st.pos,
            r.elems@.len() == st.elems@.len() + 1,
        decreases self.input().len() - st.pos, 0int,
    {
        let o = st.origin;
        let at_end = st.pos >= self.lexemes.len();
        let st = self.open_with(st, Token::LBRACE);
        let (outer, a) = self.enter(st);
        let b = if !at_end {
            self.block_items(a)
        } else {
            a
        };
        self.close(outer, Token::Block, self.close_with(b, Token::RBRACE), o)
    }

    fn block_items(&self, start: State) -> (r: State)
        requires
            self.inv(),
            start.wf(self.input()),
        ensures
            r@ == self.input().block_items(start@),
            r.wf(self.input()),
            r.origin == start.origin,
            r.pos >= start.pos,
        decreases self.input().len() - start.pos, 4int,
    {
        let ghost inp = self.input();
        let ghost init = start@;
        let o = start.origin;
        let mut st = start;
        while st.pos < self.lexemes.len() && self.kind(st.pos) != Token::RBRACE && self.kind(
            st.pos,
        ) != Token::EOF
            invariant
                self.inv(),
                inp == self.input(),
                st.wf(inp),
                st.origin == o,
                st.pos >= init.pos,
                init.pos == start.pos,
                inp.block_items(st@) == inp.block_items(init),
            decreases inp.len() - st.pos,
        {
            let (p, block) = self.expr(st, 0);
            let a = self.eat_ws(p);
            st = if self.kind(a.pos) == Token::SEMICOLON {
                self.eat_ws(self.bump(a))
            } else if !block {
                self.expect(a, Token::RBRACE)
            } else {
                a
            };
        }
        st
    }

    fn query(&self, st: State) -> (r: State)
        requires
            self.inv(),
            st.wf(self.input()),
        ensures
            r@ == self.input().query(st@),
            r.wf(self.input()),
            r.origin == st.origin,
            r.pos >= st.pos,
            st.pos < self.input().len() ==> r.pos > st.pos,
            r.elems@.len() == st.elems@.len() + 1,
        decreases self.input().len() - st.pos, 1int,
    {
        let o = st.origin;
        let at_end = st.pos >= self.lexemes.len();
        let (outer, a) = self.enter(st);
        let b = if self.kind(a.pos) == Token::IDENT {
            self.eat_ws(self.bump(a))
        } else {
            a
        };
        let d = self.expect(b, Token::LBRACE);
        let e = if !at_end {
            self.block(d)
        } else {
            d
        };
        self.close(outer, Token::Query, e, o)
    }

    fn system(&self, st: State) -> (r: State)
        requires
            self.inv(),
            st.wf(self.input()),
        ensures
            r@ == self.input().system(st@),
            r.wf(self.input()),
            r.origin == st.origin,
            r.pos >= st.pos,
            st.pos < self.input().len() ==> r.pos > st.pos,
    {
        let o = st.origin;
        let (outer, a) = self.enter(st);
        let b = if self.kind(a.pos) == Token::IDENT {
            self.eat_ws(self.bump(a))
        } else {
            a
        };
        let d = self.block(self.expect(b, Token::LBRACE));
        self.close(outer, Token::System, d, o)
    }

    fn import(&self, st: State) -> (r: State)
        requires
            self.inv(),
            st.wf(self.input()),
        ensures
            r@ == self.input().import(st@),
            r.wf(self.input()),
            r.origin == st.origin,
            r.pos >= st.pos,
            st.pos < self.input().len() ==> r.pos > st.pos,
    {
        let o = st.origin;
        let (outer, a) = self.enter(st);
        let b = self.bump(self.expect(a, Token::IDENT));
        self.close(outer, Token::Import, b, o)
    }

    fn item(&self, st: State) -> (r: State)
        requires
            self.inv(),
            st.wf(self.input()),
        ensures
            r@ == self.input().item(st@),
            r.wf(self.input()),
            r.origin == st.origin,
            r.pos >= st.pos,
            st.pos < self.input().len() ==> r.pos > st.pos,
    {
        let o = st.origin;
        let k = self.kind(st.pos);
        if k == Token::COMP {
            let (outer, a) = self.enter(st);
            let b = self.field_def(a);
            self.close(outer, Token::Component, b, o)
        } else if k == Token::RES {
            let (outer, a) = self.enter(st);
            let b = self.field_def(a);
            self.close(outer, Token::Resource, b, o)
        } else if k == Token::SYS {
            self.system(st)
        } else if k == Token::USE {
            self.import(st)
        } else {
            self.leaf_node(self.complain(st, None), Token::Error)
        }
    }

    /// Parses the source: its syntax tree, and the diagnostics in the order
    /// in which they arose. The tree holds every byte of the source.
    pub fn parse(self) -> (r: (SyntaxNode, Vec<Report>))
        ensures
            r.0@ == self.input().tree(),
            r.1@ == self.input().errors(),
            r.0@.text() == self.source().spec_bytes(),
    {
        proof {
            use_type_invariant(&self);
            self.lemma_input_wf();
        }
        let ghost inp = self.input();
        proof {
            inp.lemma_offset_mono(0, 0);
            if inp.len() > 0 {
                assert(inp.lexemes[0].start == 0);
            }
        }
        let start = State {
            pos: 0,
            elems: Vec::new(),
            errors: Vec::new(),
            origin: Ghost(0int),
        };
        assert(start@.elems =~= Seq::<Tree>::empty());
        assert(start@.errors =~= Seq::<Report>::empty());
        assert(inp.source.subrange(0, inp.offset(0)) =~= Seq::<u8>::empty());
        let mut st = self.eat_ws(start);
        let ghost init = st@;
        while st.pos < self.lexemes.len()
            invariant
                self.inv(),
                inp == self.input(),
                st.wf(inp),
                st.origin@ == 0,
                inp.items(st@) == inp.items(init),
            decreases inp.len() - st.pos,
        {
            st = self.eat_ws(self.item(st));
        }
        let n = self.source.len();
        let root = SyntaxNode { kind: Token::Root, start: 0, end: n, children: st.elems };
        proof {
            lemma_node_view(root);
            assert(inp.source.subrange(0, inp.source.len() as int) =~= inp.source);
        }
        (root, st.errors)
    }
}

/// Parses the source of module `module_id`.
pub fn run(source: &str, module_id: ModuleID) -> (r: (SyntaxNode, Vec<Report>))
    ensures
        r.0@ == parse_input(source, module_id).tree(),
        r.1@ == parse_input(source, module_id).errors(),
        r.0@.text() == source.spec_bytes(),
{
    Parser::new(source, module_id).parse()
}

/// What the parser reads when it is given `source` for module `module_id`.
pub open spec fn parse_input(source: &str, module_id: ModuleID) -> Input {
    Input { source: source.spec_bytes(), lexemes: lexemes(source.spec_bytes()), module: module_id }
}


/// Parsing is a function of the text alone: two sources of the same text
/// have the same tree, node for node, and the same diagnostics.
pub proof fn lemma_parse_deterministic(a: &str, b: &str, module_id: ModuleID)
    requires
        a@ == b@,
    ensures
        parse_input(a, module_id).tree() == parse_input(b, module_id).tree(),
        parse_input(a, module_id).errors() == parse_input(b, module_id).errors(),
{
}

} // verus!
